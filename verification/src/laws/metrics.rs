//! Laws of the goodness-of-fit metrics.
use vstd::prelude::*;
use crate::metrics::KgeComponents;

verus! {

use crate::exact::{lawful_ln, lawful_sqrt, real_power, Elementary, Real};
use crate::laws::algebra::{
    lemma_assoc, lemma_commute, lemma_distribute, lemma_positive_product, lemma_product_mono,
    lemma_product_sign, lemma_quotient, lemma_quotient_is, lemma_quotient_sign, lemma_strict,
    lemma_swap, lemma_unit,
};
use crate::laws::production::lemma_square_sign;
use crate::laws::sums::{
    lemma_sum_equal, lemma_sum_same, lemma_sum_scaled, lemma_sum_shifted, lemma_sum_sign,
    lemma_sum_zero_terms, lemma_sum_zeros,
};
use crate::metrics::{
    cross_deviations, errors, kge_components_result, kge_of, kge_result, log_nse_result,
    log_offset, mean_of, nse_result, observed, observed_spread, paired_result, pbias_result,
    shifted_logs, simulated, square_deviations, square_errors, valid_pairs,
};
use crate::number::{one, sum, zero, Arith};

/// The pairs of two series.
pub open spec fn zipped<F>(obs: Seq<F>, sim: Seq<F>) -> Seq<(F, F)> {
    Seq::new(obs.len(), |i: int| (obs[i], sim[i]))
}

/// Every pair of reals is valid.
pub(crate) proof fn lemma_all_valid<T: Elementary>(obs: Seq<Real<T>>, sim: Seq<Real<T>>)
    requires
        obs.len() == sim.len(),
    ensures
        valid_pairs(obs, sim) =~= zipped(obs, sim),
        observed(zipped(obs, sim)) =~= obs,
        simulated(zipped(obs, sim)) =~= sim,
    decreases obs.len(),
{
    if obs.len() > 0 {
        lemma_all_valid(obs.drop_last(), sim.drop_last());
    }
}

/// The square of a number.
pub(crate) proof fn lemma_power_two(c: real)
    ensures
        real_power(c, 2) == c * c,
        real_power(c, 2) >= 0real,
{
    assert(real_power(c, 1) == 1real * c) by {
        reveal_with_fuel(real_power, 2);
    }
    lemma_unit(c);
    assert(real_power(c, 2) == c * c) by {
        reveal_with_fuel(real_power, 2);
    }
    lemma_square_sign(c);
}

/// Sums of squared deviations are not negative.
proof fn lemma_spread_sign<T: Elementary>(s: Seq<Real<T>>, centre: Real<T>)
    ensures
        sum(square_deviations(s, centre)).v >= 0real,
{
    let d = square_deviations(s, centre);
    assert forall|i: int| 0 <= i < d.len() implies (#[trigger] d[i]).v >= 0real by {
        lemma_power_two(s[i].v - centre.v);
    }
    lemma_sum_sign(d);
}

/// Spread of a series about its mean.
pub open spec fn spread_of<T: Elementary>(s: Seq<Real<T>>) -> real {
    sum(square_deviations(s, mean_of(s))).v
}

/// Whether all values of a series are the same.
pub open spec fn all_equal<T: Elementary>(s: Seq<Real<T>>) -> bool {
    forall|i: int, j: int|
        0 <= i < s.len() && 0 <= j < s.len() ==> #[trigger] s[i].v == #[trigger] s[j].v
}

/// A series has no spread exactly where all its values are the same.
pub proof fn spread_is_zero_where_all_values_are_equal<T: Elementary>(s: Seq<Real<T>>)
    requires
        s.len() > 0,
    ensures
        spread_of(s) == 0real <==> all_equal(s),
        spread_of(s) >= 0real,
{
    let m = mean_of(s);
    let d = square_deviations(s, m);
    lemma_spread_sign(s, m);
    assert forall|i: int| 0 <= i < d.len() implies (#[trigger] d[i]).v >= 0real by {
        lemma_power_two(s[i].v - m.v);
    }
    if spread_of(s) == 0real {
        assert forall|i: int| 0 <= i < s.len() implies (#[trigger] s[i]).v == m.v by {
            lemma_sum_zero_terms(d, i);
            let a = s[i].v - m.v;
            lemma_power_two(a);
            lemma_zero_square(a);
        }
    }
    if all_equal(s) {
        let (o, n) = (s[0].v, s.len() as real);
        assert forall|i: int| 0 <= i < s.len() implies (#[trigger] s[i]).v == o by {}
        lemma_sum_equal(s, o);
        lemma_commute(n, o);
        lemma_quotient_is(sum(s).v, n, o);
        assert forall|i: int| 0 <= i < d.len() implies (#[trigger] d[i]).v == 0real by {
            assert(s[i].v == o);
            lemma_power_two(0real);
            lemma_unit(0real);
        }
        lemma_sum_zeros(d);
    }
}

/// Only zero has the square zero.
pub(crate) proof fn lemma_zero_square(a: real)
    by (nonlinear_arith)
    requires
        a * a == 0real,
    ensures
        a == 0real,
{
}

/// A perfect simulation of at least two observations that are not all the same
/// has a Nash-Sutcliffe efficiency of one.
pub proof fn perfect_simulation_has_nse_one<T: Elementary>(obs: Seq<Real<T>>)
    requires
        obs.len() >= 2,
        !all_equal(obs),
    ensures
        nse_result(obs, obs) == Ok::<_, crate::metrics::MetricsError>(one::<Real<T>>()),
{
    spread_is_zero_where_all_values_are_equal(obs);
    lemma_all_valid(obs, obs);
    let pairs = valid_pairs(obs, obs);
    let e = square_errors(pairs);
    assert forall|i: int| 0 <= i < e.len() implies (#[trigger] e[i]).v == 0real by {
        lemma_power_two(0real);
        lemma_unit(0real);
    }
    lemma_sum_zeros(e);
    lemma_unit(spread_of(obs));
    lemma_quotient_is(0real, spread_of(obs), 0real);
}

/// Whether a series can be shifted by `eps` and its logarithms taken.
pub open spec fn positive_after<T: Elementary>(s: Seq<Real<T>>, eps: Real<T>) -> bool {
    forall|i: int| 0 <= i < s.len() ==> (#[trigger] s[i]).v + eps.v > 0real
}

/// A perfect simulation of observations that are not all the same has a
/// logarithmic Nash-Sutcliffe efficiency of one, where the logarithms exist.
pub proof fn perfect_simulation_has_log_nse_one<T: Elementary>(obs: Seq<Real<T>>)
    requires
        lawful_ln::<T>(),
        obs.len() >= 2,
        !all_equal(obs),
        positive_after(obs, log_offset(zipped(obs, obs))),
    ensures
        log_nse_result(obs, obs) == Ok::<_, crate::metrics::MetricsError>(one::<Real<T>>()),
{
    lemma_all_valid(obs, obs);
    let eps = log_offset(zipped(obs, obs));
    let logs = shifted_logs(obs, eps);
    if all_equal(logs) {
        assert forall|i: int, j: int|
            0 <= i < obs.len() && 0 <= j < obs.len() implies #[trigger] obs[i].v
            == #[trigger] obs[j].v by {
            let (a, b) = (obs[i].v + eps.v, obs[j].v + eps.v);
            assert(logs[i].v == logs[j].v);
            assert(T::ln(a) == T::ln(b));
            assert(a > 0real && b > 0real);
        }
    }
    perfect_simulation_has_nse_one(logs);
}

/// Moving both series by the same amount does not change the Nash-Sutcliffe
/// efficiency.
pub proof fn nse_does_not_depend_on_the_level<T: Elementary>(
    obs: Seq<Real<T>>,
    sim: Seq<Real<T>>,
    moved_obs: Seq<Real<T>>,
    moved_sim: Seq<Real<T>>,
    k: real,
)
    requires
        obs.len() == sim.len(),
        moved_obs.len() == obs.len(),
        moved_sim.len() == sim.len(),
        forall|i: int| 0 <= i < obs.len() ==> (#[trigger] moved_obs[i]).v == obs[i].v + k,
        forall|i: int| 0 <= i < sim.len() ==> (#[trigger] moved_sim[i]).v == sim[i].v + k,
    ensures
        nse_result(moved_obs, moved_sim) == nse_result(obs, sim),
{
    lemma_all_valid(obs, sim);
    lemma_all_valid(moved_obs, moved_sim);
    if obs.len() >= 2 {
        let n = obs.len() as real;
        let (m, mm) = (mean_of(obs), mean_of(moved_obs));
        lemma_sum_shifted(obs, moved_obs, k);
        lemma_quotient(sum(obs).v, n);
        lemma_distribute(sum(obs).v / n, k, n);
        lemma_quotient_is(sum(moved_obs).v, n, sum(obs).v / n + k);
        assert(mm.v == m.v + k);
        let (d, md) = (square_deviations(obs, m), square_deviations(moved_obs, mm));
        assert forall|i: int| 0 <= i < d.len() implies (#[trigger] md[i]).v == d[i].v by {
            assert(moved_obs[i].v - mm.v == obs[i].v - m.v);
        }
        lemma_sum_same(d, md);
        let e = square_errors(valid_pairs(obs, sim));
        let me = square_errors(valid_pairs(moved_obs, moved_sim));
        assert forall|i: int| 0 <= i < e.len() implies (#[trigger] me[i]).v == e[i].v by {
            assert(moved_sim[i].v - moved_obs[i].v == sim[i].v - obs[i].v);
        }
        lemma_sum_same(e, me);
    }
}

/// The logarithmic Nash-Sutcliffe efficiency does not depend on the unit of the
/// flows, where the logarithms exist.
pub proof fn log_nse_does_not_depend_on_the_unit<T: Elementary>(
    obs: Seq<Real<T>>,
    sim: Seq<Real<T>>,
    scaled_obs: Seq<Real<T>>,
    scaled_sim: Seq<Real<T>>,
    c: real,
)
    requires
        lawful_ln::<T>(),
        c > 0real,
        obs.len() == sim.len(),
        scaled_obs.len() == obs.len(),
        scaled_sim.len() == sim.len(),
        forall|i: int| 0 <= i < obs.len() ==> (#[trigger] scaled_obs[i]).v == c * obs[i].v,
        forall|i: int| 0 <= i < sim.len() ==> (#[trigger] scaled_sim[i]).v == c * sim[i].v,
        positive_after(obs, log_offset(zipped(obs, sim))),
        positive_after(sim, log_offset(zipped(obs, sim))),
    ensures
        log_nse_result(scaled_obs, scaled_sim) == log_nse_result(obs, sim),
{
    lemma_all_valid(obs, sim);
    lemma_all_valid(scaled_obs, scaled_sim);
    if obs.len() >= 2 {
        let eps = log_offset(zipped(obs, sim));
        let scaled_eps = log_offset(zipped(scaled_obs, scaled_sim));
        lemma_scaled_mean(obs, scaled_obs, c);
        lemma_quotient(mean_of(obs).v, 100real);
        lemma_assoc(c, eps.v, 100real);
        lemma_quotient_is(c * mean_of(obs).v, 100real, c * eps.v);
        assert(scaled_eps.v == c * eps.v);
        let (lo, ls) = (shifted_logs(obs, eps), shifted_logs(sim, eps));
        let mo = shifted_logs(scaled_obs, scaled_eps);
        let ms = shifted_logs(scaled_sim, scaled_eps);
        let k = T::ln(c);
        assert forall|i: int| 0 <= i < lo.len() implies (#[trigger] mo[i]).v == lo[i].v + k by {
            assert(obs[i].v + eps.v > 0real);
            lemma_distribute(obs[i].v, eps.v, c);
            assert(scaled_obs[i].v + scaled_eps.v == c * (obs[i].v + eps.v));
            assert(T::ln(c * (obs[i].v + eps.v)) == k + T::ln(obs[i].v + eps.v));
        }
        assert forall|i: int| 0 <= i < ls.len() implies (#[trigger] ms[i]).v == ls[i].v + k by {
            assert(sim[i].v + eps.v > 0real);
            lemma_distribute(sim[i].v, eps.v, c);
            assert(scaled_sim[i].v + scaled_eps.v == c * (sim[i].v + eps.v));
            assert(T::ln(c * (sim[i].v + eps.v)) == k + T::ln(sim[i].v + eps.v));
        }
        nse_does_not_depend_on_the_level(lo, ls, mo, ms, k);
    }
}

/// A perfect simulation has no bias.
pub proof fn perfect_simulation_has_no_bias<T: Elementary>(obs: Seq<Real<T>>)
    requires
        obs.len() >= 2,
        sum(obs).v != 0real,
    ensures
        pbias_result(obs, obs) == Ok::<_, crate::metrics::MetricsError>(zero::<Real<T>>()),
{
    lemma_all_valid(obs, obs);
    let e = errors(valid_pairs(obs, obs));
    assert forall|i: int| 0 <= i < e.len() implies (#[trigger] e[i]).v == 0real by {}
    lemma_sum_zeros(e);
    lemma_unit(100real);
    lemma_unit(sum(obs).v);
    lemma_quotient_is(0real, sum(obs).v, 0real);
}

/// A simulation that always gives the mean of the observations has a
/// Nash-Sutcliffe efficiency of zero.
pub proof fn mean_simulation_has_nse_zero<T: Elementary>(obs: Seq<Real<T>>, sim: Seq<Real<T>>)
    requires
        obs.len() >= 2,
        sim.len() == obs.len(),
        !all_equal(obs),
        forall|i: int| 0 <= i < sim.len() ==> #[trigger] sim[i] == mean_of(obs),
    ensures
        nse_result(obs, sim) == Ok::<_, crate::metrics::MetricsError>(zero::<Real<T>>()),
{
    spread_is_zero_where_all_values_are_equal(obs);
    lemma_all_valid(obs, sim);
    let pairs = valid_pairs(obs, sim);
    let e = square_errors(pairs);
    let m = mean_of(obs);
    let d = square_deviations(obs, m);
    assert forall|i: int| 0 <= i < d.len() implies (#[trigger] e[i]).v == d[i].v by {
        let a = m.v - obs[i].v;
        lemma_power_two(a);
        lemma_power_two(-a);
        lemma_negated_square(a);
        assert(sim[i] == m);
        assert(obs[i].v - m.v == -a);
    }
    lemma_sum_same(d, e);
    lemma_unit(spread_of(obs));
    lemma_quotient_is(spread_of(obs), spread_of(obs), 1real);
}

/// The sign does not matter to a square.
pub(crate) proof fn lemma_negated_square(a: real)
    by (nonlinear_arith)
    ensures
        (-a) * (-a) == a * a,
{
}

/// The Nash-Sutcliffe efficiency is defined wherever the observations vary.
pub proof fn nse_is_defined_for_varying_observations<T: Elementary>(
    obs: Seq<Real<T>>,
    sim: Seq<Real<T>>,
)
    requires
        obs.len() >= 2,
        sim.len() == obs.len(),
        !all_equal(obs),
    ensures
        nse_result(obs, sim) is Ok,
{
    spread_is_zero_where_all_values_are_equal(obs);
    lemma_all_valid(obs, sim);
}

/// The Nash-Sutcliffe efficiency is at most one.
pub proof fn nse_is_at_most_one<T: Elementary>(obs: Seq<Real<T>>, sim: Seq<Real<T>>)
    requires
        nse_result(obs, sim) is Ok,
    ensures
        nse_result(obs, sim)->Ok_0.v <= 1real,
{
    let pairs = valid_pairs(obs, sim);
    let e = square_errors(pairs);
    assert forall|i: int| 0 <= i < e.len() implies (#[trigger] e[i]).v >= 0real by {
        lemma_power_two(pairs[i].1.v - pairs[i].0.v);
    }
    lemma_sum_sign(e);
    lemma_spread_sign(observed(pairs), mean_of(observed(pairs)));
    lemma_quotient_sign(sum(e).v, observed_spread(pairs).v);
}

/// The Kling-Gupta efficiency is at most one.
pub proof fn kge_is_at_most_one<T: Elementary>(c: KgeComponents<Real<T>>)
    requires
        lawful_sqrt::<T>(),
    ensures
        kge_of(c).v <= 1real,
{
    lemma_power_two(c.r.v - 1real);
    lemma_power_two(c.alpha.v - 1real);
    lemma_power_two(c.beta.v - 1real);
}

/// The Kling-Gupta efficiency is one where all its components are.
pub proof fn kge_of_ideal_components_is_one<T: Elementary>()
    requires
        lawful_sqrt::<T>(),
    ensures
        kge_of(
            KgeComponents { r: one::<Real<T>>(), alpha: one(), beta: one() },
        ) == one::<Real<T>>(),
{
    lemma_power_two(0real);
    lemma_unit(0real);
    let z = T::sqrt(0real);
    if z > 0real {
        lemma_positive_product(z, z);
    }
}

/// The sum of a scaled series.
proof fn lemma_scaled_mean<T: Elementary>(s: Seq<Real<T>>, t: Seq<Real<T>>, c: real)
    requires
        s.len() == t.len(),
        s.len() > 0,
        forall|i: int| 0 <= i < s.len() ==> (#[trigger] t[i]).v == c * s[i].v,
    ensures
        mean_of(t).v == c * mean_of(s).v,
{
    lemma_sum_scaled(s, t, c);
    let n = s.len() as real;
    lemma_quotient(sum(s).v, n);
    lemma_assoc(c, sum(s).v / n, n);
    lemma_quotient_is(c * sum(s).v, n, c * (sum(s).v / n));
}

/// Non-negative numbers with the same square are the same.
pub(crate) proof fn lemma_root_unique(a: real, b: real)
    requires
        a >= 0real,
        b >= 0real,
        a * a == b * b,
    ensures
        a == b,
{
    if a < b {
        lemma_product_mono(a, b, a);
        lemma_strict(a, b, b);
        lemma_commute(a, b);
    } else if b < a {
        lemma_product_mono(b, a, b);
        lemma_strict(b, a, a);
        lemma_commute(a, b);
    }
}

/// A simulation that is `c > 0` times the observations has correlation one,
/// variability ratio `c` and bias ratio `c`.
pub proof fn scaled_simulation_has_scaled_components<T: Elementary>(
    obs: Seq<Real<T>>,
    sim: Seq<Real<T>>,
    c: Real<T>,
)
    requires
        lawful_sqrt::<T>(),
        obs.len() >= 2,
        sim.len() == obs.len(),
        c.v > 0real,
        forall|i: int| 0 <= i < sim.len() ==> #[trigger] sim[i] == c.times(obs[i]),
        !all_equal(obs),
        mean_of(obs).v != 0real,
    ensures
        kge_components_result(obs, sim) == Ok::<_, crate::metrics::MetricsError>(
            KgeComponents { r: one::<Real<T>>(), alpha: c, beta: c },
        ),
{
    spread_is_zero_where_all_values_are_equal(obs);
    lemma_all_valid(obs, sim);
    let pairs = valid_pairs(obs, sim);
    assert forall|i: int| 0 <= i < sim.len() implies (#[trigger] sim[i]).v == c.v * obs[i].v by {}
    lemma_scaled_mean(obs, sim, c.v);
    let (om, sm) = (mean_of(obs), mean_of(sim));
    let devs = square_deviations(obs, om);
    let sdevs = square_deviations(sim, sm);
    let cross = cross_deviations(pairs, om, sm);
    assert forall|i: int| 0 <= i < devs.len() implies (#[trigger] sdevs[i]).v == (c.v * c.v)
        * devs[i].v by {
        let a = obs[i].v - om.v;
        lemma_power_two(a);
        lemma_power_two(c.v * a);
        lemma_distribute(obs[i].v, om.v, c.v);
        assert(sim[i].v == c.v * obs[i].v);
        lemma_square_factor(c.v, a);
    }
    lemma_sum_scaled(devs, sdevs, c.v * c.v);
    assert forall|i: int| 0 <= i < devs.len() implies (#[trigger] cross[i]).v == c.v
        * devs[i].v by {
        let a = obs[i].v - om.v;
        lemma_power_two(a);
        lemma_distribute(obs[i].v, om.v, c.v);
        assert(sim[i].v == c.v * obs[i].v);
        lemma_assoc(a, c.v, a);
        lemma_commute(a, c.v);
        lemma_assoc(c.v, a, a);
    }
    lemma_sum_scaled(devs, cross, c.v);
    lemma_spread_sign(obs, om);
    let v = spread_of(obs);
    let (so, ss) = (T::sqrt(v), T::sqrt((c.v * c.v) * v));
    lemma_product_sign(c.v, c.v);
    lemma_product_sign(c.v * c.v, v);
    lemma_product_sign(c.v, so);
    lemma_square_factor(c.v, so);
    assert((c.v * so) * (c.v * so) == (c.v * c.v) * v);
    lemma_root_unique(ss, c.v * so);
    assert(so > 0real) by {
        if so == 0real {
            lemma_unit(so);
        }
    }
    lemma_quotient_is(ss, so, c.v);
    // Correlation.
    lemma_assoc(so, c.v, so);
    lemma_commute(so, c.v);
    lemma_assoc(c.v, so, so);
    assert(so * ss == c.v * v);
    lemma_positive_product(c.v, v);
    lemma_unit(c.v * v);
    lemma_quotient_is(c.v * v, c.v * v, 1real);
    // Bias.
    lemma_quotient_is(sm.v, om.v, c.v);
}

/// A factor leaves a square as its own square.
proof fn lemma_square_factor(c: real, a: real)
    ensures
        (c * a) * (c * a) == (c * c) * (a * a),
{
    lemma_assoc(c * a, c, a);
    lemma_swap(c, a, c);
    lemma_assoc(c * c, a, a);
}

/// A perfect simulation has a Kling-Gupta efficiency of one.
pub proof fn perfect_simulation_has_kge_one<T: Elementary>(obs: Seq<Real<T>>)
    requires
        lawful_sqrt::<T>(),
        obs.len() >= 2,
        !all_equal(obs),
        mean_of(obs).v != 0real,
    ensures
        kge_result(obs, obs) == Ok::<_, crate::metrics::MetricsError>(one::<Real<T>>()),
{
    assert forall|i: int| 0 <= i < obs.len() implies #[trigger] obs[i] == one::<Real<T>>().times(
        obs[i],
    ) by {
        lemma_unit(obs[i].v);
    }
    scaled_simulation_has_scaled_components(obs, obs, one());
    kge_of_ideal_components_is_one::<T>();
}

/// A simulation that is `c` times the observations has a bias of `100 (c - 1)`
/// percent.
pub proof fn scaled_simulation_has_scaled_bias<T: Elementary>(
    obs: Seq<Real<T>>,
    sim: Seq<Real<T>>,
    c: Real<T>,
)
    requires
        obs.len() >= 2,
        sim.len() == obs.len(),
        forall|i: int| 0 <= i < sim.len() ==> #[trigger] sim[i] == c.times(obs[i]),
        sum(obs).v != 0real,
    ensures
        pbias_result(obs, sim) == Ok::<_, crate::metrics::MetricsError>(
            Real::<T>::literal(100, 1).times(c.minus(one())),
        ),
{
    lemma_all_valid(obs, sim);
    let e = errors(valid_pairs(obs, sim));
    assert forall|i: int| 0 <= i < obs.len() implies (#[trigger] e[i]).v == (c.v - 1real)
        * obs[i].v by {
        assert(sim[i].v == c.v * obs[i].v);
        lemma_distribute(c.v, 1real, obs[i].v);
        lemma_unit(obs[i].v);
    }
    lemma_sum_scaled(obs, e, c.v - 1real);
    let total = sum(obs).v;
    lemma_assoc(100real, c.v - 1real, total);
    lemma_quotient_is(100real * ((c.v - 1real) * total), total, 100real * (c.v - 1real));
}

/// A simulation that nowhere falls below the observations has no negative bias,
/// where the observations have a positive sum.
pub proof fn overestimation_has_positive_bias<T: Elementary>(
    obs: Seq<Real<T>>,
    sim: Seq<Real<T>>,
)
    requires
        obs.len() >= 2,
        sim.len() == obs.len(),
        forall|i: int| 0 <= i < sim.len() ==> (#[trigger] sim[i]).v >= obs[i].v,
        sum(obs).v > 0real,
    ensures
        pbias_result(obs, sim) is Ok,
        pbias_result(obs, sim)->Ok_0.v >= 0real,
{
    lemma_all_valid(obs, sim);
    let e = errors(valid_pairs(obs, sim));
    assert forall|i: int| 0 <= i < e.len() implies (#[trigger] e[i]).v >= 0real by {
        assert(sim[i].v >= obs[i].v);
    }
    lemma_sum_sign(e);
    lemma_product_sign(100real, sum(e).v);
    lemma_quotient_sign(100real * sum(e).v, sum(obs).v);
}

/// A step at which either value is not finite does not count: every metric is
/// what it is without that step.
pub proof fn gaps_are_skipped<F: Arith>(obs: Seq<F>, sim: Seq<F>, i: int)
    requires
        obs.len() == sim.len(),
        0 <= i < obs.len(),
        !obs[i].finite() || !sim[i].finite(),
    ensures
        valid_pairs(obs, sim) == valid_pairs(obs.remove(i), sim.remove(i)),
        nse_result(obs, sim) == nse_result(obs.remove(i), sim.remove(i)),
        log_nse_result(obs, sim) == log_nse_result(obs.remove(i), sim.remove(i)),
        kge_components_result(obs, sim) == kge_components_result(obs.remove(i), sim.remove(i)),
        kge_result(obs, sim) == kge_result(obs.remove(i), sim.remove(i)),
        pbias_result(obs, sim) == pbias_result(obs.remove(i), sim.remove(i)),
    decreases obs.len(),
{
    let (o, s) = (obs.remove(i), sim.remove(i));
    if i == obs.len() - 1 {
        assert(o =~= obs.drop_last());
        assert(s =~= sim.drop_last());
    } else {
        let (ol, sl) = (obs.drop_last(), sim.drop_last());
        gaps_are_skipped(ol, sl, i);
        assert(o.drop_last() =~= ol.remove(i));
        assert(s.drop_last() =~= sl.remove(i));
        assert(o.last() == obs.last());
        assert(s.last() == sim.last());
    }
    assert(paired_result(obs, sim) == paired_result(o, s));
}

} // verus!
