//! The GR4J equations (Perrin et al. 2003), as relations between the state
//! before a step, the forcing and what comes of them.
use vstd::prelude::*;
use crate::gr4j::Gr4jParams;

verus! {

use crate::exact::{re, real_ceiling, Elementary, Real};
use crate::gr4j::{
    effective, fast_share, gr4j_after, gr4j_discharge, gr4j_fault, gr4j_next, gr4j_series,
    gr4j_start, ordinates1, ordinates2, production, routing_filled, slow_share, Gr4jStores,
};
use crate::laws::algebra::{lemma_distribute, lemma_half, lemma_quotient, lemma_unit};
use crate::laws::gr4j::{gr4j_fitting, gr4j_parameters, gr4j_storage};
use crate::laws::production::lemma_power_four;
use crate::laws::unit_hydrograph::lemma_buffer_len;
use crate::number::{two, Arith};

/// In a step whose rainfall meets the demand, the production store of level `s`
/// takes in `x1 (1 - (s/x1)^2) w / (1 + s/x1 w)` with `w = tanh(Pn / x1)`, and
/// of the level `l` that it has then `l [1 + (4 l / 9 x1)^4]^(-1/4)` stays.
pub proof fn wet_production_follows_its_equation<T: Elementary>(
    prm: Gr4jParams<Real<T>>,
    st: Gr4jStores<Real<T>>,
    p: Real<T>,
    pet: Real<T>,
    l: real,
)
    requires
        pet.v < p.v,
        ({
            let sr = st.s.v / prm.x1.v;
            let w = T::tanh((p.v - pet.v) / prm.x1.v);
            l == st.s.v + prm.x1.v * (1real - sr * sr) * w / (1real + sr * w)
        }),
    ensures
        ({
            let c = l / (9real / 4real * prm.x1.v);
            gr4j_next(prm, st, p, pet).s.v == l * T::pow(
                1real + c * c * c * c,
                -1real / 4real,
            )
        }),
{
    let c = l / (9real / 4real * prm.x1.v);
    let z = T::pow(1real + c * c * c * c, -1real / 4real);
    let filled = st.s.plus(production(prm.x1, st.s, p, pet).ps).minus(
        production(prm.x1, st.s, p, pet).es,
    );
    assert(filled.v == l);
    lemma_power_four(c);
    lemma_distribute(1real, z, l);
    lemma_unit(l);
}

/// In a step whose rainfall does not meet the demand, the production store of
/// level `s` gives `s (2 - s/x1) w / (1 + (1 - s/x1) w)` with
/// `w = tanh(En / x1)`, and of the level `l` that it has then
/// `l [1 + (4 l / 9 x1)^4]^(-1/4)` stays.
pub proof fn dry_production_follows_its_equation<T: Elementary>(
    prm: Gr4jParams<Real<T>>,
    st: Gr4jStores<Real<T>>,
    p: Real<T>,
    pet: Real<T>,
    l: real,
)
    requires
        p.v < pet.v,
        ({
            let sr = st.s.v / prm.x1.v;
            let w = T::tanh((pet.v - p.v) / prm.x1.v);
            l == st.s.v - st.s.v * (2real - sr) * w / (1real + (1real - sr) * w)
        }),
    ensures
        ({
            let c = l / (9real / 4real * prm.x1.v);
            gr4j_next(prm, st, p, pet).s.v == l * T::pow(
                1real + c * c * c * c,
                -1real / 4real,
            )
        }),
{
    let c = l / (9real / 4real * prm.x1.v);
    let z = T::pow(1real + c * c * c * c, -1real / 4real);
    let filled = st.s.plus(production(prm.x1, st.s, p, pet).ps).minus(
        production(prm.x1, st.s, p, pet).es,
    );
    assert(filled.v == l);
    lemma_power_four(c);
    lemma_distribute(1real, z, l);
    lemma_unit(l);
}

/// In a step whose rainfall just meets the demand, the production store only
/// percolates: of the level `s`, `s [1 + (4 s / 9 x1)^4]^(-1/4)` stays.
pub proof fn even_production_only_percolates<T: Elementary>(
    prm: Gr4jParams<Real<T>>,
    st: Gr4jStores<Real<T>>,
    p: Real<T>,
)
    ensures
        ({
            let c = st.s.v / (9real / 4real * prm.x1.v);
            gr4j_next(prm, st, p, p).s.v == st.s.v * T::pow(
                1real + c * c * c * c,
                -1real / 4real,
            )
        }),
{
    let l = st.s.v;
    let c = l / (9real / 4real * prm.x1.v);
    let z = T::pow(1real + c * c * c * c, -1real / 4real);
    let filled = st.s.plus(production(prm.x1, st.s, p, p).ps).minus(
        production(prm.x1, st.s, p, p).es,
    );
    assert(filled.v == l);
    lemma_power_four(c);
    lemma_distribute(1real, z, l);
    lemma_unit(l);
}

/// Whether `pr` is the effective rainfall of a step: what the production store
/// does not keep of its content and of the net rainfall, less what evaporates
/// from it.
pub open spec fn effective_rainfall<T: Elementary>(
    prm: Gr4jParams<Real<T>>,
    st: Gr4jStores<Real<T>>,
    p: Real<T>,
    pet: Real<T>,
    pr: real,
) -> bool {
    let kept = gr4j_next(prm, st, p, pet).s.v;
    if pet.v <= p.v {
        pr == st.s.v + (p.v - pet.v) - kept
    } else {
        let sr = st.s.v / prm.x1.v;
        let w = T::tanh((pet.v - p.v) / prm.x1.v);
        pr == st.s.v - st.s.v * (2real - sr) * w / (1real + (1real - sr) * w) - kept
    }
}

/// Nine tenths of the effective rainfall enter the slow unit hydrograph and one
/// tenth the fast one, spread by their ordinates; both move on by one day, and
/// nothing is left in their last place.
pub proof fn effective_rainfall_is_split_nine_to_one<T: Elementary>(
    prm: Gr4jParams<Real<T>>,
    st: Gr4jStores<Real<T>>,
    p: Real<T>,
    pet: Real<T>,
    pr: real,
)
    requires
        gr4j_parameters(prm),
        gr4j_fitting(prm, st),
        effective_rainfall(prm, st, p, pet, pr),
    ensures
        ({
            let next = gr4j_next(prm, st, p, pet);
            let (o1, o2) = (ordinates1(prm.x4), ordinates2(prm.x4));
            &&& next.uh1.len() == st.uh1.len()
            &&& next.uh2.len() == st.uh2.len()
            &&& forall|i: int|
                0 <= i < st.uh1.len() - 1 ==> (#[trigger] next.uh1[i]).v == st.uh1[i + 1].v
                    + o1[i + 1].v * (9real / 10real * pr)
            &&& forall|i: int|
                0 <= i < st.uh2.len() - 1 ==> (#[trigger] next.uh2[i]).v == st.uh2[i + 1].v
                    + o2[i + 1].v * (1real / 10real * pr)
            &&& next.uh1[st.uh1.len() - 1].v == 0real
            &&& next.uh2[st.uh2.len() - 1].v == 0real
        }),
{
    lemma_pulses(prm, st, p, pet, pr);
    lemma_half(1real);
    lemma_buffer_len(prm.x4);
    assert(two::<Real<T>>().times(prm.x4).v == 2real * prm.x4.v);
    lemma_buffer_len(two::<Real<T>>().times(prm.x4));
}

/// The pulses of a step.
proof fn lemma_pulses<T: Elementary>(
    prm: Gr4jParams<Real<T>>,
    st: Gr4jStores<Real<T>>,
    p: Real<T>,
    pet: Real<T>,
    pr: real,
)
    requires
        effective_rainfall(prm, st, p, pet, pr),
    ensures
        ({
            let prod = production(prm.x1, st.s, p, pet);
            &&& effective(prod).v == pr
            &&& slow_share(prod).v == 9real / 10real * pr
            &&& fast_share(prod).v == 1real / 10real * pr
        }),
{
    lemma_quotient(9real, 10real);
    lemma_quotient(1real, 10real);
    lemma_distribute(1real, 9real / 10real, pr);
    lemma_unit(pr);
    assert(1real - 9real / 10real == 1real / 10real);
}

/// The routing store takes in what leaves the slow unit hydrograph and the
/// groundwater exchange `x2 (R/x3)^(7/2)`, of either sign, and is never less
/// than empty. Of the content `f` that it has then `f [1 + (f/x3)^4]^(-1/4)`
/// stays. Discharge is the rest, with what leaves the fast unit hydrograph and
/// the exchange, if that is not negative.
pub proof fn routing_follows_its_equations<T: Elementary>(
    prm: Gr4jParams<Real<T>>,
    st: Gr4jStores<Real<T>>,
    p: Real<T>,
    pet: Real<T>,
    pr: real,
    f: real,
)
    requires
        gr4j_parameters(prm),
        gr4j_fitting(prm, st),
        effective_rainfall(prm, st, p, pet, pr),
        ({
            let q9 = st.uh1[0].v + ordinates1(prm.x4)[0].v * (9real / 10real * pr);
            let gain = prm.x2.v * T::pow(st.r.v / prm.x3.v, 7real / 2real);
            f == if st.r.v + q9 + gain >= 0real {
                st.r.v + q9 + gain
            } else {
                0real
            }
        }),
    ensures
        ({
            let c = f / prm.x3.v;
            let kept = f * T::pow(1real + c * c * c * c, -1real / 4real);
            let q1 = st.uh2[0].v + ordinates2(prm.x4)[0].v * (1real / 10real * pr);
            let gain = prm.x2.v * T::pow(st.r.v / prm.x3.v, 7real / 2real);
            &&& gr4j_next(prm, st, p, pet).r.v == kept
            &&& gr4j_discharge(prm, st, p, pet).v == f - kept + if q1 + gain >= 0real {
                q1 + gain
            } else {
                0real
            }
        }),
{
    lemma_pulses(prm, st, p, pet, pr);
    lemma_half(1real);
    lemma_buffer_len(prm.x4);
    assert(two::<Real<T>>().times(prm.x4).v == 2real * prm.x4.v);
    lemma_buffer_len(two::<Real<T>>().times(prm.x4));
    let c = f / prm.x3.v;
    let z = T::pow(1real + c * c * c * c, -1real / 4real);
    assert(routing_filled(prm, st, p, pet).v == f);
    lemma_power_four(c);
    lemma_distribute(1real, z, f);
    lemma_unit(f);
}

/// The same parameters with the exchange coefficient `x2`.
pub open spec fn with_exchange<F>(prm: Gr4jParams<F>, x2: F) -> Gr4jParams<F> {
    Gr4jParams { x2, ..prm }
}

/// Groundwater exchange adds `x2 (R/x3)^(7/2)` to each of the two branches, or
/// takes it from them where `x2` is negative: as long as neither runs dry, a
/// step ends with `2 x2 (R/x3)^(7/2)` more water in the stores and discharge
/// together than the same step without exchange.
pub proof fn exchange_adds_to_both_branches<T: Elementary>(
    prm: Gr4jParams<Real<T>>,
    st: Gr4jStores<Real<T>>,
    p: Real<T>,
    pet: Real<T>,
    pr: real,
)
    requires
        gr4j_parameters(prm),
        gr4j_fitting(prm, st),
        effective_rainfall(prm, st, p, pet, pr),
        ({
            let gain = prm.x2.v * T::pow(st.r.v / prm.x3.v, 7real / 2real);
            let q9 = st.uh1[0].v + ordinates1(prm.x4)[0].v * (9real / 10real * pr);
            let q1 = st.uh2[0].v + ordinates2(prm.x4)[0].v * (1real / 10real * pr);
            &&& st.r.v + q9 + gain >= 0real
            &&& q1 + gain >= 0real
            &&& st.r.v + q9 >= 0real
            &&& q1 >= 0real
        }),
    ensures
        ({
            let none = with_exchange(prm, re(0real));
            gr4j_storage(gr4j_next(prm, st, p, pet)) + gr4j_discharge(prm, st, p, pet).v == (
            gr4j_storage(gr4j_next(none, st, p, pet)) + gr4j_discharge(none, st, p, pet).v) + 2real
                * (prm.x2.v * T::pow(st.r.v / prm.x3.v, 7real / 2real))
        }),
{
    let none = with_exchange(prm, re::<T>(0real));
    lemma_unit(T::pow(st.r.v / prm.x3.v, 7real / 2real));
    assert(gr4j_fault(none) is None);
    let q9 = st.uh1[0].v + ordinates1(prm.x4)[0].v * (9real / 10real * pr);
    let gain = prm.x2.v * T::pow(st.r.v / prm.x3.v, 7real / 2real);
    assert(production(prm.x1, st.s, p, pet) == production(none.x1, st.s, p, pet));
    assert(effective_rainfall(none, st, p, pet, pr));
    routing_follows_its_equations(prm, st, p, pet, pr, st.r.v + q9 + gain);
    routing_follows_its_equations(none, st, p, pet, pr, st.r.v + q9);
}

/// Exchange with the opposite coefficient is the opposite exchange: as long as
/// no branch runs dry, what a step gains with `x2` it loses with `-x2`.
pub proof fn opposite_coefficients_exchange_opposite_amounts<T: Elementary>(
    prm: Gr4jParams<Real<T>>,
    st: Gr4jStores<Real<T>>,
    p: Real<T>,
    pet: Real<T>,
    pr: real,
)
    requires
        gr4j_parameters(prm),
        gr4j_fitting(prm, st),
        effective_rainfall(prm, st, p, pet, pr),
        ({
            let gain = prm.x2.v * T::pow(st.r.v / prm.x3.v, 7real / 2real);
            let q9 = st.uh1[0].v + ordinates1(prm.x4)[0].v * (9real / 10real * pr);
            let q1 = st.uh2[0].v + ordinates2(prm.x4)[0].v * (1real / 10real * pr);
            &&& st.r.v + q9 + gain >= 0real
            &&& st.r.v + q9 - gain >= 0real
            &&& q1 + gain >= 0real
            &&& q1 - gain >= 0real
        }),
    ensures
        ({
            let none = with_exchange(prm, re(0real));
            let other = with_exchange(prm, re(-prm.x2.v));
            let end = |q: Gr4jParams<Real<T>>|
                gr4j_storage(gr4j_next(q, st, p, pet)) + gr4j_discharge(q, st, p, pet).v;
            end(prm) - end(none) == end(none) - end(other)
        }),
{
    let other = with_exchange(prm, re::<T>(-prm.x2.v));
    let pw = T::pow(st.r.v / prm.x3.v, 7real / 2real);
    lemma_distribute(0real, prm.x2.v, pw);
    lemma_unit(pw);
    assert(other.x2.v * pw == -(prm.x2.v * pw));
    assert(gr4j_fault(other) is None);
    assert(production(prm.x1, st.s, p, pet) == production(other.x1, st.s, p, pet));
    assert(effective_rainfall(other, st, p, pet, pr));
    exchange_adds_to_both_branches(prm, st, p, pet, pr);
    exchange_adds_to_both_branches(other, st, p, pet, pr);
    let none = with_exchange(prm, re::<T>(0real));
    assert(with_exchange(other, re::<T>(0real)) == none);
}

/// Parameters are accepted exactly where both capacities are positive and the
/// time base is at least half a day.
pub proof fn gr4j_accepts_positive_capacities<T: Elementary>(prm: Gr4jParams<Real<T>>)
    ensures
        gr4j_fault(prm) is None <==> prm.x1.v > 0real && prm.x3.v > 0real && prm.x4.v >= 1real
            / 2real,
{
}

/// The default initial state has the production store at three tenths and the
/// routing store at half of its capacity, and unit hydrographs of `ceil(x4)`
/// and `ceil(2 x4)` empty places.
pub proof fn gr4j_starts_partly_filled<T: Elementary>(prm: Gr4jParams<Real<T>>)
    requires
        gr4j_parameters(prm),
    ensures
        ({
            let st = gr4j_start(prm);
            &&& 10real * st.s.v == 3real * prm.x1.v
            &&& 2real * st.r.v == prm.x3.v
            &&& st.uh1.len() == real_ceiling(prm.x4.v)
            &&& st.uh2.len() == real_ceiling(2real * prm.x4.v)
            &&& forall|i: int| 0 <= i < st.uh1.len() ==> (#[trigger] st.uh1[i]).v == 0real
            &&& forall|i: int| 0 <= i < st.uh2.len() ==> (#[trigger] st.uh2[i]).v == 0real
        }),
{
    lemma_quotient(3real, 10real);
    lemma_distribute(3real / 10real, 0real, prm.x1.v);
    lemma_tenths(prm.x1.v);
    lemma_half(prm.x3.v);
    lemma_half(1real);
    lemma_buffer_len(prm.x4);
    assert(two::<Real<T>>().times(prm.x4).v == 2real * prm.x4.v);
    lemma_buffer_len(two::<Real<T>>().times(prm.x4));
}

/// Three tenths of a number.
proof fn lemma_tenths(a: real)
    by (nonlinear_arith)
    ensures
        10real * ((3real / 10real) * a) == 3real * a,
{
}

/// A run of one step is that step.
pub proof fn gr4j_run_of_one_step_is_a_step<F: Arith>(
    prm: Gr4jParams<F>,
    st: Gr4jStores<F>,
    p: F,
    pet: F,
)
    ensures
        gr4j_series(prm, st, seq![p], seq![pet]) == seq![gr4j_discharge(prm, st, p, pet)],
        gr4j_after(prm, st, seq![p], seq![pet], 1) == gr4j_next(prm, st, p, pet),
{
    assert(gr4j_after(prm, st, seq![p], seq![pet], 0) == st);
    assert(gr4j_series(prm, st, seq![p], seq![pet]) =~= seq![gr4j_discharge(prm, st, p, pet)]);
}

} // verus!
