//! What the metrics measure, as equations between the series and the scores.
use vstd::prelude::*;
use crate::metrics::{KgeComponents, MetricsError};

verus! {

use crate::exact::{lawful_sqrt, re, Elementary, Real};
use crate::laws::algebra::{
    lemma_assoc, lemma_commute, lemma_positive_product, lemma_quotient, lemma_quotient_is,
    lemma_quotient_sign, lemma_swap, lemma_unit,
};
use crate::laws::metrics::{
    all_equal, lemma_all_valid, lemma_negated_square, lemma_power_two, lemma_root_unique,
    lemma_zero_square, spread_is_zero_where_all_values_are_equal, spread_of,
};
use crate::laws::production::lemma_square_sign;
use crate::laws::sums::lemma_sum_same;
use crate::metrics::{
    cross_deviations, errors, kge_components_result, kge_of, kge_result, log_nse_result,
    log_offset, mean_of, nse_result, pbias_result, shifted_logs, square_deviations,
    square_errors, valid_pairs,
};
use crate::number::{sum, Arith};

/// Sum of `f(i)` over the first `n` indices.
pub open spec fn total_of<T: Elementary>(n: nat, f: spec_fn(int) -> real) -> real {
    sum(Seq::<Real<T>>::new(n, |i: int| re(f(i)))).v
}

/// Whether `m` is the mean of a series.
pub open spec fn is_mean<T: Elementary>(s: Seq<Real<T>>, m: real) -> bool {
    s.len() as real * m == sum(s).v
}

/// The mean as the metrics compute it.
proof fn lemma_mean<T: Elementary>(s: Seq<Real<T>>, m: real)
    requires
        s.len() > 0,
        is_mean(s, m),
    ensures
        mean_of(s).v == m,
{
    lemma_commute(s.len() as real, m);
    lemma_quotient_is(sum(s).v, s.len() as real, m);
}

/// The spread of a series about its mean as a plain sum of squares.
proof fn lemma_spread<T: Elementary>(s: Seq<Real<T>>, m: real)
    requires
        s.len() > 0,
        is_mean(s, m),
    ensures
        spread_of(s) == total_of::<T>(s.len(), |i: int| (s[i].v - m) * (s[i].v - m)),
{
    lemma_mean(s, m);
    let d = square_deviations(s, mean_of(s));
    let f = |i: int| (s[i].v - m) * (s[i].v - m);
    let e = Seq::<Real<T>>::new(s.len(), |i: int| re(f(i)));
    assert forall|i: int| 0 <= i < e.len() implies (#[trigger] d[i]).v == e[i].v by {
        lemma_power_two(s[i].v - m);
    }
    lemma_sum_same(e, d);
}

/// The Nash-Sutcliffe efficiency falls short of one by the sum of the squared
/// errors over the sum of the squared deviations of the observations from their
/// mean.
pub proof fn nse_measures_squared_errors<T: Elementary>(
    obs: Seq<Real<T>>,
    sim: Seq<Real<T>>,
    m: real,
)
    requires
        obs.len() >= 2,
        sim.len() == obs.len(),
        !all_equal(obs),
        is_mean(obs, m),
    ensures
        nse_result(obs, sim) is Ok,
        (1real - nse_result(obs, sim)->Ok_0.v) * total_of::<T>(
            obs.len(),
            |i: int| (obs[i].v - m) * (obs[i].v - m),
        ) == total_of::<T>(
            obs.len(),
            |i: int| (sim[i].v - obs[i].v) * (sim[i].v - obs[i].v),
        ),
{
    lemma_all_valid(obs, sim);
    lemma_spread(obs, m);
    spread_is_zero_where_all_values_are_equal(obs);
    let e = square_errors(valid_pairs(obs, sim));
    let f = |i: int| (sim[i].v - obs[i].v) * (sim[i].v - obs[i].v);
    let g = Seq::<Real<T>>::new(obs.len(), |i: int| re(f(i)));
    assert forall|i: int| 0 <= i < g.len() implies (#[trigger] e[i]).v == g[i].v by {
        lemma_power_two(sim[i].v - obs[i].v);
    }
    lemma_sum_same(g, e);
    lemma_quotient(sum(e).v, spread_of(obs));
}

/// Where both series vary and the observations have a mean other than zero, the
/// bias ratio takes the mean of the observations to that of the simulation, the
/// variability ratio is not negative and its square takes the spread of the
/// observations to that of the simulation, and the correlation times the
/// variability ratio takes the spread of the observations to the joint spread.
pub proof fn kge_components_measure_mean_spread_and_correlation<T: Elementary>(
    obs: Seq<Real<T>>,
    sim: Seq<Real<T>>,
    mo: real,
    ms: real,
)
    requires
        lawful_sqrt::<T>(),
        obs.len() >= 2,
        sim.len() == obs.len(),
        !all_equal(obs),
        !all_equal(sim),
        is_mean(obs, mo),
        is_mean(sim, ms),
        mo != 0real,
    ensures
        kge_components_result(obs, sim) is Ok,
        ({
            let c = kge_components_result(obs, sim)->Ok_0;
            let vo = total_of::<T>(obs.len(), |i: int| (obs[i].v - mo) * (obs[i].v - mo));
            let vs = total_of::<T>(obs.len(), |i: int| (sim[i].v - ms) * (sim[i].v - ms));
            let joint = total_of::<T>(obs.len(), |i: int| (obs[i].v - mo) * (sim[i].v - ms));
            &&& c.beta.v * mo == ms
            &&& c.alpha.v >= 0real
            &&& c.alpha.v * c.alpha.v * vo == vs
            &&& c.r.v * c.alpha.v * vo == joint
        }),
{
    lemma_all_valid(obs, sim);
    let pairs = valid_pairs(obs, sim);
    lemma_mean(obs, mo);
    lemma_mean(sim, ms);
    lemma_spread(obs, mo);
    lemma_spread(sim, ms);
    spread_is_zero_where_all_values_are_equal(obs);
    spread_is_zero_where_all_values_are_equal(sim);
    let (vo, vs) = (spread_of(obs), spread_of(sim));
    let d = cross_deviations(pairs, mean_of(obs), mean_of(sim));
    let f = |i: int| (obs[i].v - mo) * (sim[i].v - ms);
    let g = Seq::<Real<T>>::new(obs.len(), |i: int| re(f(i)));
    assert forall|i: int| 0 <= i < g.len() implies (#[trigger] d[i]).v == g[i].v by {}
    lemma_sum_same(g, d);
    let (so, ss) = (T::sqrt(vo), T::sqrt(vs));
    assert(so != 0real) by {
        lemma_unit(so);
    }
    assert(ss != 0real) by {
        lemma_unit(ss);
    }
    let c = kge_components_result(obs, sim)->Ok_0;
    assert(c.alpha.v == ss / so);
    assert(c.r.v == sum(d).v / (so * ss));
    lemma_quotient(ms, mo);
    lemma_quotient_sign(ss, so);
    lemma_quotient(ss, so);
    let a = c.alpha.v;
    // a a (so so) == (a so) (a so) == ss ss
    lemma_assoc(a * a, so, so);
    lemma_swap(a, a, so);
    lemma_assoc(a * so, a, so);
    // r a (so so) == r (ss so) == joint
    lemma_positive_product(so, ss);
    lemma_quotient(sum(d).v, so * ss);
    lemma_assoc(c.r.v, a, vo);
    lemma_assoc(a, so, so);
    lemma_commute(so, ss);
}

/// The Kling-Gupta efficiency falls short of one by the distance of its
/// components from one: `(1 - KGE)^2 = (r-1)^2 + (alpha-1)^2 + (beta-1)^2`.
pub proof fn kge_measures_the_distance_of_its_components<T: Elementary>(
    c: KgeComponents<Real<T>>,
)
    requires
        lawful_sqrt::<T>(),
    ensures
        kge_of(c).v <= 1real,
        (1real - kge_of(c).v) * (1real - kge_of(c).v) == (c.r.v - 1real) * (c.r.v - 1real) + (
        c.alpha.v - 1real) * (c.alpha.v - 1real) + (c.beta.v - 1real) * (c.beta.v - 1real),
{
    lemma_power_two(c.r.v - 1real);
    lemma_power_two(c.alpha.v - 1real);
    lemma_power_two(c.beta.v - 1real);
}

/// The Kling-Gupta efficiency is one only where correlation, variability ratio
/// and bias ratio are all one.
pub proof fn kge_is_one_only_for_ideal_components<T: Elementary>(c: KgeComponents<Real<T>>)
    requires
        lawful_sqrt::<T>(),
    ensures
        kge_of(c).v == 1real <==> c.r.v == 1real && c.alpha.v == 1real && c.beta.v == 1real,
{
    kge_measures_the_distance_of_its_components(c);
    let (x, y, z) = (c.r.v - 1real, c.alpha.v - 1real, c.beta.v - 1real);
    lemma_square_sign(x);
    lemma_square_sign(y);
    lemma_square_sign(z);
    lemma_unit(0real);
    let d = 1real - kge_of(c).v;
    if kge_of(c).v == 1real {
        assert(d * d == 0real);
        lemma_zero_square(x);
        lemma_zero_square(y);
        lemma_zero_square(z);
    }
    if x == 0real && y == 0real && z == 0real {
        assert(d * d == 0real);
        lemma_zero_square(d);
    }
}

/// Without bias in mean and variability the Kling-Gupta efficiency falls short of
/// one by the distance of the correlation from one.
pub proof fn kge_counts_the_correlation<T: Elementary>(c: KgeComponents<Real<T>>)
    requires
        lawful_sqrt::<T>(),
        c.alpha.v == 1real,
        c.beta.v == 1real,
    ensures
        kge_of(c).v == if c.r.v <= 1real {
            c.r.v
        } else {
            2real - c.r.v
        },
{
    kge_measures_the_distance_of_its_components(c);
    lemma_unit(0real);
    let x = c.r.v - 1real;
    let d = 1real - kge_of(c).v;
    if x <= 0real {
        lemma_negated_square(x);
        lemma_root_unique(d, -x);
    } else {
        lemma_root_unique(d, x);
    }
}

/// The Kling-Gupta efficiency of two series is that of their components.
pub proof fn kge_is_that_of_the_components<F: Arith>(obs: Seq<F>, sim: Seq<F>)
    ensures
        match (kge_result(obs, sim), kge_components_result(obs, sim)) {
            (Ok(k), Ok(c)) => k == kge_of(c),
            (Err(e), Err(f)) => e == f,
            _ => false,
        },
{
}

/// Percent bias takes the sum of the observations to a hundred times what the
/// simulation exceeds it by.
pub proof fn pbias_measures_the_excess_volume<T: Elementary>(
    obs: Seq<Real<T>>,
    sim: Seq<Real<T>>,
)
    requires
        obs.len() >= 2,
        sim.len() == obs.len(),
        sum(obs).v != 0real,
    ensures
        pbias_result(obs, sim) is Ok,
        pbias_result(obs, sim)->Ok_0.v * sum(obs).v == 100real * (sum(sim).v - sum(obs).v),
{
    lemma_all_valid(obs, sim);
    let e = errors(valid_pairs(obs, sim));
    lemma_differences(obs, sim, e);
    lemma_quotient(100real * sum(e).v, sum(obs).v);
}

/// Differences add up to the difference of the sums.
proof fn lemma_differences<T: Elementary>(
    a: Seq<Real<T>>,
    b: Seq<Real<T>>,
    d: Seq<Real<T>>,
)
    requires
        a.len() == b.len(),
        a.len() == d.len(),
        forall|i: int| 0 <= i < a.len() ==> (#[trigger] d[i]).v == b[i].v - a[i].v,
    ensures
        sum(d).v == sum(b).v - sum(a).v,
    decreases a.len(),
{
    if a.len() > 0 {
        let (a0, b0, d0) = (a.drop_last(), b.drop_last(), d.drop_last());
        assert forall|i: int| 0 <= i < a0.len() implies (#[trigger] d0[i]).v == b0[i].v
            - a0[i].v by {
            assert(d0[i] == d[i]);
        }
        lemma_differences(a0, b0, d0);
        assert(d[a.len() - 1].v == b.last().v - a.last().v);
    }
}

/// The logarithmic Nash-Sutcliffe efficiency is the Nash-Sutcliffe efficiency of
/// the logarithms, taken after a hundredth of the mean of the observations is
/// added.
pub proof fn log_nse_is_the_nse_of_logarithms<T: Elementary>(
    obs: Seq<Real<T>>,
    sim: Seq<Real<T>>,
    m: real,
    log_obs: Seq<Real<T>>,
    log_sim: Seq<Real<T>>,
)
    requires
        obs.len() >= 2,
        sim.len() == obs.len(),
        log_obs.len() == obs.len(),
        log_sim.len() == obs.len(),
        is_mean(obs, m),
        forall|i: int|
            0 <= i < obs.len() ==> (#[trigger] log_obs[i]).v == T::ln(obs[i].v + m / 100real),
        forall|i: int|
            0 <= i < obs.len() ==> (#[trigger] log_sim[i]).v == T::ln(sim[i].v + m / 100real),
    ensures
        log_nse_result(obs, sim) == nse_result(log_obs, log_sim),
{
    lemma_all_valid(obs, sim);
    lemma_mean(obs, m);
    let eps = log_offset(valid_pairs(obs, sim));
    assert(shifted_logs(obs, eps) =~= log_obs);
    assert(shifted_logs(sim, eps) =~= log_sim);
}

/// When a metric is defined, and why not where it is not: the series must match
/// and have two steps; for the efficiencies the observations must vary, for the
/// Kling-Gupta efficiency their mean must not be zero, and for the percent bias
/// their sum must not.
pub proof fn metrics_are_defined_where_they_measure_something<T: Elementary>(
    obs: Seq<Real<T>>,
    sim: Seq<Real<T>>,
)
    requires
        obs.len() <= usize::MAX,
        sim.len() <= usize::MAX,
    ensures
        ({
            let unpaired: Option<MetricsError> = if obs.len() != sim.len() {
                Some(
                    MetricsError::LengthMismatch {
                        obs: obs.len() as usize,
                        sim: sim.len() as usize,
                    },
                )
            } else if obs.len() < 2 {
                Some(MetricsError::InsufficientData(obs.len() as usize))
            } else {
                None
            };
            let constant = all_equal(obs);
            let empty = sum(obs).v == 0real;
            &&& match nse_result(obs, sim) {
                Ok(_) => unpaired is None && !constant,
                Err(e) => unpaired == Some(e) || (unpaired is None && constant && e
                    == MetricsError::ZeroVariance),
            }
            &&& match kge_components_result(obs, sim) {
                Ok(_) => unpaired is None && !constant && !empty,
                Err(e) => unpaired == Some(e) || (unpaired is None && (constant || empty) && e
                    == MetricsError::ZeroVariance),
            }
            &&& match pbias_result(obs, sim) {
                Ok(_) => unpaired is None && !empty,
                Err(e) => unpaired == Some(e) || (unpaired is None && empty && e
                    == MetricsError::ZeroObsSum),
            }
        }),
{
    if obs.len() == sim.len() {
        lemma_all_valid(obs, sim);
        if obs.len() >= 2 {
            spread_is_zero_where_all_values_are_equal(obs);
            let n = obs.len() as real;
            lemma_quotient(sum(obs).v, n);
            lemma_unit(n);
            if sum(obs).v == 0real {
                lemma_quotient_is(0real, n, 0real);
            }
        }
    }
}

/// A step at which both values are finite counts, whatever the values.
pub proof fn finite_pairs_count<F: Arith>(obs: Seq<F>, sim: Seq<F>, o: F, s: F)
    requires
        o.finite(),
        s.finite(),
    ensures
        valid_pairs(obs.push(o), sim.push(s)) == valid_pairs(obs, sim).push((o, s)),
{
    assert(obs.push(o).drop_last() =~= obs);
    assert(sim.push(s).drop_last() =~= sim);
}

} // verus!
