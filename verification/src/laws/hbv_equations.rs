//! The HBV-light equations, as relations between the state before a step, the
//! forcing and what comes of them.
use vstd::prelude::*;
use crate::hbv::HbvParams;

verus! {

use crate::exact::{lawful_exponents, real_ceiling, Elementary, Real};
use crate::hbv::{
    cover_step, hbv_aet, hbv_after, hbv_discharge, hbv_fault, hbv_next, hbv_series, hbv_start,
    hbv_storage, soil_step, temp_at, triangle_weights, HbvStores,
};
use crate::laws::algebra::{
    lemma_half, lemma_product_mono, lemma_quotient_is, lemma_quotient_mono, lemma_quotient_sign,
    lemma_unit,
};
use crate::laws::hbv::{corrected, hbv_parameters, lemma_snow, lemma_soil};
use crate::laws::unit_hydrograph::lemma_buffer_len;
use crate::number::{sum, Arith};
use crate::uh::buffer_len;

/// The smaller of two numbers.
pub open spec fn smaller(a: real, b: real) -> real {
    if a <= b {
        a
    } else {
        b
    }
}

/// Below the threshold temperature precipitation becomes snow, corrected by SFCF,
/// and CFR CFMAX per degree of the liquid water refreezes, as far as there is
/// any. Of the rest the pack holds CWH times its frozen content.
pub proof fn cold_snow_follows_its_equations<T: Elementary>(
    prm: HbvParams<Real<T>>,
    st: HbvStores<Real<T>>,
    p: Real<T>,
    t: Real<T>,
    pet: Real<T>,
)
    requires
        t.v < prm.tt.v,
    ensures
        ({
            let next = hbv_next(prm, st, p, Some(t), pet);
            let refrozen = smaller(
                prm.cfr.v * prm.cfmax.v * (prm.tt.v - t.v),
                st.liquid_water.v,
            );
            &&& next.snowpack.v == st.snowpack.v + p.v * prm.sfcf.v + refrozen
            &&& next.liquid_water.v == smaller(
                st.liquid_water.v - refrozen,
                prm.cwh.v * next.snowpack.v,
            )
        }),
{
}

/// At and above the threshold temperature precipitation is rain, and CFMAX per
/// degree of the frozen pack melts, as far as there is any. Of all liquid water
/// the pack holds CWH times its frozen content.
pub proof fn warm_snow_follows_its_equations<T: Elementary>(
    prm: HbvParams<Real<T>>,
    st: HbvStores<Real<T>>,
    p: Real<T>,
    t: Real<T>,
    pet: Real<T>,
)
    requires
        t.v >= prm.tt.v,
    ensures
        ({
            let next = hbv_next(prm, st, p, Some(t), pet);
            let melted = smaller(prm.cfmax.v * (t.v - prm.tt.v), st.snowpack.v);
            &&& next.snowpack.v == st.snowpack.v - melted
            &&& next.liquid_water.v == smaller(
                st.liquid_water.v + melted + p.v,
                prm.cwh.v * next.snowpack.v,
            )
        }),
{
}

/// Water that reaches the soil in a step: what falls, less what the snow gains.
pub open spec fn reaching_soil<T: Elementary>(
    prm: HbvParams<Real<T>>,
    st: HbvStores<Real<T>>,
    p: Real<T>,
    temp: Option<Real<T>>,
    pet: Real<T>,
) -> real {
    let next = hbv_next(prm, st, p, temp, pet);
    corrected(prm, p, temp).v - (next.snowpack.v - st.snowpack.v) - (next.liquid_water.v
        - st.liquid_water.v)
}

/// Water that leaves the soil downwards in a step: what reaches it, less what it
/// gains and what evaporates.
pub open spec fn leaving_soil<T: Elementary>(
    prm: HbvParams<Real<T>>,
    st: HbvStores<Real<T>>,
    p: Real<T>,
    temp: Option<Real<T>>,
    pet: Real<T>,
) -> real {
    reaching_soil(prm, st, p, temp, pet) - (hbv_next(prm, st, p, temp, pet).soil_moisture.v
        - st.soil_moisture.v) - hbv_aet(prm, st, p, temp, pet).v
}

/// The share `(SM/FC)^BETA` of the water that reaches the soil passes it, with
/// the wetness SM/FC counted as at most one, and what exceeds FC overflows. Of
/// the moisture `m` that there is then the demand draws its part `m / (FC LP)`,
/// or all of the demand from `FC LP` on, as far as there is any.
pub proof fn soil_follows_its_equations<T: Elementary>(
    prm: HbvParams<Real<T>>,
    st: HbvStores<Real<T>>,
    p: Real<T>,
    temp: Option<Real<T>>,
    pet: Real<T>,
    m: real,
)
    requires
        hbv_fault(prm) is None,
        ({
            let w = reaching_soil(prm, st, p, temp, pet);
            let wetness = smaller(st.soil_moisture.v / prm.fc.v, 1real);
            m == smaller(
                st.soil_moisture.v + w - w * T::pow(wetness, prm.beta.v),
                prm.fc.v,
            )
        }),
    ensures
        ({
            let drawn = smaller(
                pet.v * smaller(m / (prm.fc.v * prm.lp.v), 1real),
                m,
            );
            &&& hbv_aet(prm, st, p, temp, pet).v == drawn
            &&& hbv_next(prm, st, p, temp, pet).soil_moisture.v == m - drawn
        }),
{
    let snow = cover_step(prm, st.snowpack, st.liquid_water, p, temp);
    lemma_snow(prm, st.snowpack, st.liquid_water, p, temp);
    assert(snow.release.v == reaching_soil(prm, st, p, temp, pet));
}

/// As long as the soil does not overflow, the share of the water reaching it that
/// becomes recharge is `(SM/FC)^BETA`.
pub proof fn recharge_is_a_power_of_wetness<T: Elementary>(
    prm: HbvParams<Real<T>>,
    st: HbvStores<Real<T>>,
    p: Real<T>,
    temp: Option<Real<T>>,
    pet: Real<T>,
)
    requires
        hbv_fault(prm) is None,
        st.soil_moisture.v <= prm.fc.v,
        ({
            let w = reaching_soil(prm, st, p, temp, pet);
            st.soil_moisture.v + w - w * T::pow(st.soil_moisture.v / prm.fc.v, prm.beta.v)
                <= prm.fc.v
        }),
    ensures
        leaving_soil(prm, st, p, temp, pet) == reaching_soil(prm, st, p, temp, pet) * T::pow(
            st.soil_moisture.v / prm.fc.v,
            prm.beta.v,
        ),
{
    let w = reaching_soil(prm, st, p, temp, pet);
    lemma_quotient_mono(st.soil_moisture.v, prm.fc.v, prm.fc.v);
    lemma_unit(prm.fc.v);
    lemma_quotient_is(prm.fc.v, prm.fc.v, 1real);
    soil_follows_its_equations(
        prm,
        st,
        p,
        temp,
        pet,
        st.soil_moisture.v + w - w * T::pow(st.soil_moisture.v / prm.fc.v, prm.beta.v),
    );
}

/// With BETA = 1 recharge is proportional to the wetness of the soil.
pub proof fn recharge_with_beta_one_is_proportional<T: Elementary>(
    prm: HbvParams<Real<T>>,
    st: HbvStores<Real<T>>,
    p: Real<T>,
    temp: Option<Real<T>>,
    pet: Real<T>,
)
    requires
        lawful_exponents::<T>(),
        hbv_fault(prm) is None,
        prm.beta.v == 1real,
        0real <= st.soil_moisture.v <= prm.fc.v,
        ({
            let w = reaching_soil(prm, st, p, temp, pet);
            st.soil_moisture.v + w - w * (st.soil_moisture.v / prm.fc.v) <= prm.fc.v
        }),
    ensures
        leaving_soil(prm, st, p, temp, pet) == reaching_soil(prm, st, p, temp, pet) * (
        st.soil_moisture.v / prm.fc.v),
{
    lemma_quotient_sign(st.soil_moisture.v, prm.fc.v);
    recharge_is_a_power_of_wetness(prm, st, p, temp, pet);
}

/// The same parameters with the exponent `beta`.
pub open spec fn with_beta<F>(prm: HbvParams<F>, beta: F) -> HbvParams<F> {
    HbvParams { beta, ..prm }
}

/// The larger BETA, the less recharge from a soil below capacity, as long as it
/// does not overflow.
pub proof fn larger_beta_gives_less_recharge<T: Elementary>(
    prm: HbvParams<Real<T>>,
    beta: Real<T>,
    st: HbvStores<Real<T>>,
    p: Real<T>,
    temp: Option<Real<T>>,
    pet: Real<T>,
)
    requires
        lawful_exponents::<T>(),
        hbv_fault(prm) is None,
        prm.beta.v <= beta.v,
        0real <= st.soil_moisture.v <= prm.fc.v,
        reaching_soil(prm, st, p, temp, pet) >= 0real,
        ({
            let w = reaching_soil(prm, st, p, temp, pet);
            st.soil_moisture.v + w - w * T::pow(st.soil_moisture.v / prm.fc.v, beta.v)
                <= prm.fc.v
        }),
    ensures
        leaving_soil(with_beta(prm, beta), st, p, temp, pet) <= leaving_soil(
            prm,
            st,
            p,
            temp,
            pet,
        ),
{
    let other = with_beta(prm, beta);
    let x = st.soil_moisture.v / prm.fc.v;
    let w = reaching_soil(prm, st, p, temp, pet);
    lemma_quotient_sign(st.soil_moisture.v, prm.fc.v);
    lemma_quotient_mono(st.soil_moisture.v, prm.fc.v, prm.fc.v);
    lemma_unit(prm.fc.v);
    lemma_quotient_is(prm.fc.v, prm.fc.v, 1real);
    assert(T::pow(x, beta.v) <= T::pow(x, prm.beta.v));
    lemma_product_mono(T::pow(x, beta.v), T::pow(x, prm.beta.v), w);
    assert(cover_step(prm, st.snowpack, st.liquid_water, p, temp) == cover_step(
        other,
        st.snowpack,
        st.liquid_water,
        p,
        temp,
    ));
    assert(reaching_soil(other, st, p, temp, pet) == w);
    recharge_is_a_power_of_wetness(prm, st, p, temp, pet);
    recharge_is_a_power_of_wetness(other, st, p, temp, pet);
}

/// What leaves the soil enters the upper zone, of which PERC percolates to the
/// lower zone, as far as there is any. The upper zone gives K0 times what stands
/// above UZL and then K1 times the rest, the lower zone K2 times its content.
/// This runoff is spread over the routing buffer by its weights. The buffer
/// moves on by one day, its front is the discharge, and nothing is left in its
/// last place.
pub proof fn response_follows_its_equations<T: Elementary>(
    prm: HbvParams<Real<T>>,
    st: HbvStores<Real<T>>,
    p: Real<T>,
    temp: Option<Real<T>>,
    pet: Real<T>,
    upper: real,
    lower: real,
)
    requires
        hbv_parameters(prm),
        st.routing.len() == buffer_len(prm.maxbas),
        ({
            let charged = st.suz.v + leaving_soil(prm, st, p, temp, pet);
            &&& upper == charged - smaller(prm.perc.v, charged)
            &&& lower == st.slz.v + smaller(prm.perc.v, charged)
        }),
    ensures
        ({
            let next = hbv_next(prm, st, p, temp, pet);
            let above = if upper >= prm.uzl.v {
                upper - prm.uzl.v
            } else {
                0real
            };
            let q0 = prm.k0.v * above;
            let q1 = prm.k1.v * (upper - q0);
            let q2 = prm.k2.v * lower;
            let w = triangle_weights(prm.maxbas);
            &&& next.suz.v == upper - q0 - q1
            &&& next.slz.v == lower - q2
            &&& hbv_discharge(prm, st, p, temp, pet).v == st.routing[0].v + w[0].v * (q0 + q1
                + q2)
            &&& next.routing.len() == st.routing.len()
            &&& forall|i: int|
                0 <= i < st.routing.len() - 1 ==> (#[trigger] next.routing[i]).v == st.routing[i
                    + 1].v + w[i + 1].v * (q0 + q1 + q2)
            &&& next.routing[st.routing.len() - 1].v == 0real
        }),
{
    let snow = cover_step(prm, st.snowpack, st.liquid_water, p, temp);
    let soil = soil_step(prm, st.soil_moisture, snow.release, pet);
    lemma_snow(prm, st.snowpack, st.liquid_water, p, temp);
    lemma_soil(prm, st.soil_moisture, snow.release, pet);
    assert(soil.recharge.v == leaving_soil(prm, st, p, temp, pet));
    lemma_buffer_len(prm.maxbas);
}

/// Parameters are accepted exactly where each lies in its range.
pub proof fn hbv_accepts_parameters_in_range<T: Elementary>(prm: HbvParams<Real<T>>)
    ensures
        hbv_fault(prm) is None <==> {
            &&& prm.cfmax.v >= 0real
            &&& prm.sfcf.v > 0real
            &&& 0real <= prm.cfr.v <= 1real
            &&& prm.cwh.v >= 0real
            &&& prm.fc.v > 0real
            &&& 0real < prm.lp.v <= 1real
            &&& prm.beta.v > 0real
            &&& 0real <= prm.k0.v <= 1real
            &&& 0real <= prm.k1.v <= 1real
            &&& 0real <= prm.k2.v <= 1real
            &&& prm.uzl.v >= 0real
            &&& prm.perc.v >= 0real
            &&& prm.maxbas.v >= 1real
        },
{
}

/// The default initial state has the soil at half of its capacity, all other
/// stores empty, and a routing buffer of `ceil(maxbas)` empty places.
pub proof fn hbv_starts_half_wet<T: Elementary>(prm: HbvParams<Real<T>>)
    requires
        hbv_parameters(prm),
    ensures
        ({
            let st = hbv_start(prm);
            &&& st.snowpack.v == 0real
            &&& st.liquid_water.v == 0real
            &&& 2real * st.soil_moisture.v == prm.fc.v
            &&& st.suz.v == 0real
            &&& st.slz.v == 0real
            &&& st.routing.len() == real_ceiling(prm.maxbas.v)
            &&& forall|i: int| 0 <= i < st.routing.len() ==> (#[trigger] st.routing[i]).v == 0real
        }),
{
    lemma_half(prm.fc.v);
    lemma_buffer_len(prm.maxbas);
}

/// Storage counts every store, and what is in transit.
pub proof fn hbv_storage_counts_every_store<T: Elementary>(st: HbvStores<Real<T>>)
    ensures
        hbv_storage(st).v == st.snowpack.v + st.liquid_water.v + st.soil_moisture.v + st.suz.v
            + st.slz.v + sum(st.routing).v,
{
}

/// A run of one step is that step.
pub proof fn hbv_run_of_one_step_is_a_step<F: Arith>(
    prm: HbvParams<F>,
    st: HbvStores<F>,
    p: F,
    temp: Option<F>,
    pet: F,
)
    ensures
        ({
            let temps = match temp {
                Some(t) => Some(seq![t]),
                None => None,
            };
            &&& hbv_series(prm, st, seq![p], seq![pet], temps) == seq![
                hbv_discharge(prm, st, p, temp, pet),
            ]
            &&& hbv_after(prm, st, seq![p], seq![pet], temps, 1) == hbv_next(
                prm,
                st,
                p,
                temp,
                pet,
            )
        }),
{
    let temps = match temp {
        Some(t) => Some(seq![t]),
        None => None,
    };
    assert(hbv_after(prm, st, seq![p], seq![pet], temps, 0) == st);
    assert(temp_at(temps, 0) == temp);
    assert(hbv_series(prm, st, seq![p], seq![pet], temps) =~= seq![
        hbv_discharge(prm, st, p, temp, pet),
    ]);
}

} // verus!
