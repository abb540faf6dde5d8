//! Laws of the HBV-light model: stores stay sound, water is conserved.
use vstd::prelude::*;
use crate::hbv::HbvParams;

verus! {

use crate::exact::{lawful_pow, Elementary, Real};
use crate::hbv::{
    cover_step, hbv_aet, hbv_after, hbv_discharge, hbv_fault, hbv_next, hbv_series, hbv_start,
    hbv_storage, response_step, routing_charged, soil_step, temp_at, triangle_weights,
    HbvStores,
};
use crate::laws::algebra::{
    lemma_distribute, lemma_half, lemma_positive_product, lemma_product_mono, lemma_product_sign,
    lemma_quotient_sign, lemma_share, lemma_unit,
};
use crate::laws::sums::{lemma_sum_advanced, lemma_sum_spread, non_negative};
use crate::laws::triangle::triangle_weights_sum_to_one;
use crate::laws::unit_hydrograph::{countable, lemma_buffer_len};
use crate::number::{one, sum, zero, Arith};
use crate::uh::{advanced, buffer_len};

/// Accepted parameters with a routing time that can be counted.
pub open spec fn hbv_parameters<T: Elementary>(prm: HbvParams<Real<T>>) -> bool {
    hbv_fault(prm) is None && countable(prm.maxbas)
}

/// Whether the snow stores are non-negative.
pub open spec fn snow_sound<T: Elementary>(snowpack: Real<T>, liquid: Real<T>) -> bool {
    snowpack.v >= 0real && liquid.v >= 0real
}

/// Whether the soil moisture lies between zero and its capacity.
pub open spec fn soil_sound<T: Elementary>(prm: HbvParams<Real<T>>, sm: Real<T>) -> bool {
    0real <= sm.v <= prm.fc.v
}

/// Whether a routing buffer has the length of the weights and no negative
/// content.
pub open spec fn routing_sound<T: Elementary>(
    prm: HbvParams<Real<T>>,
    routing: Seq<Real<T>>,
) -> bool {
    routing.len() == buffer_len(prm.maxbas) && non_negative(routing)
}

/// Whether no store is negative and the soil holds no more than its capacity.
pub open spec fn hbv_sound<T: Elementary>(
    prm: HbvParams<Real<T>>,
    st: HbvStores<Real<T>>,
) -> bool {
    &&& snow_sound(st.snowpack, st.liquid_water)
    &&& soil_sound(prm, st.soil_moisture)
    &&& st.suz.v >= 0real
    &&& st.slz.v >= 0real
    &&& routing_sound(prm, st.routing)
}

/// Precipitation as the model takes it in: snowfall is corrected by SFCF.
pub open spec fn corrected<T: Elementary>(
    prm: HbvParams<Real<T>>,
    p: Real<T>,
    temp: Option<Real<T>>,
) -> Real<T> {
    match temp {
        Some(t) => if t.below(prm.tt) {
            p.times(prm.sfcf)
        } else {
            p
        },
        None => p,
    }
}

/// Snow stores stay sound, and water is neither made nor lost in them.
pub(crate) proof fn lemma_snow<T: Elementary>(
    prm: HbvParams<Real<T>>,
    snowpack: Real<T>,
    liquid: Real<T>,
    p: Real<T>,
    temp: Option<Real<T>>,
)
    requires
        hbv_fault(prm) is None,
    ensures
        ({
            let out = cover_step(prm, snowpack, liquid, p, temp);
            &&& out.snowpack.v + out.liquid_water.v + out.release.v == snowpack.v + liquid.v
                + corrected(prm, p, temp).v
            &&& snow_sound(snowpack, liquid) && p.v >= 0real ==> {
                snow_sound(out.snowpack, out.liquid_water) && out.release.v >= 0real
            }
        }),
{
    if temp is Some {
        let t = temp->0;
        if snow_sound(snowpack, liquid) && p.v >= 0real {
            let pack = if t.v < prm.tt.v {
                lemma_product_sign(prm.cfr.v, prm.cfmax.v);
                lemma_product_sign(prm.cfr.v * prm.cfmax.v, prm.tt.v - t.v);
                lemma_product_sign(p.v, prm.sfcf.v);
                let refreeze = prm.cfr.times(prm.cfmax).times(prm.tt.minus(t)).lesser(liquid);
                snowpack.plus(p.times(prm.sfcf)).plus(refreeze)
            } else {
                lemma_product_sign(prm.cfmax.v, t.v - prm.tt.v);
                let melt = prm.cfmax.times(t.minus(prm.tt)).lesser(snowpack);
                snowpack.minus(melt)
            };
            assert(pack.v >= 0real);
            lemma_product_sign(prm.cwh.v, pack.v);
        }
    }
}

/// Soil moisture stays within its capacity, evapotranspiration within its
/// demand, and water is neither made nor lost in the soil.
pub(crate) proof fn lemma_soil<T: Elementary>(
    prm: HbvParams<Real<T>>,
    sm: Real<T>,
    inflow: Real<T>,
    pet: Real<T>,
)
    requires
        hbv_fault(prm) is None,
    ensures
        ({
            let out = soil_step(prm, sm, inflow, pet);
            &&& out.soil_moisture.v + out.recharge.v + out.aet.v == sm.v + inflow.v
            &&& lawful_pow::<T>() && soil_sound(prm, sm) && inflow.v >= 0real && pet.v >= 0real
                ==> {
                &&& soil_sound(prm, out.soil_moisture)
                &&& out.recharge.v >= 0real
                &&& 0real <= out.aet.v <= pet.v
            }
        }),
{
    if lawful_pow::<T>() && soil_sound(prm, sm) && inflow.v >= 0real && pet.v >= 0real {
        let wetness = sm.over(prm.fc).lesser(one());
        lemma_quotient_sign(sm.v, prm.fc.v);
        assert(0real <= wetness.v <= 1real);
        let share = T::pow(wetness.v, prm.beta.v);
        assert(share <= T::pow(1real, prm.beta.v));
        lemma_product_sign(inflow.v, share);
        lemma_product_mono(share, 1real, inflow.v);
        lemma_unit(inflow.v);
        let bulk = inflow.times(wetness.raised(prm.beta));
        assert(0real <= bulk.v <= inflow.v);
        let filled = sm.plus(inflow).minus(bulk);
        let overflow = filled.minus(prm.fc).greater(zero());
        let capped = filled.minus(overflow);
        assert(0real <= capped.v <= prm.fc.v);
        lemma_positive_product(prm.fc.v, prm.lp.v);
        lemma_quotient_sign(capped.v, prm.fc.v * prm.lp.v);
        let factor = capped.over(prm.fc.times(prm.lp)).lesser(one());
        lemma_product_sign(pet.v, factor.v);
        lemma_product_mono(factor.v, 1real, pet.v);
        lemma_unit(pet.v);
    }
}

/// Response stores stay non-negative, and water is neither made nor lost in
/// them.
pub(crate) proof fn lemma_response<T: Elementary>(
    prm: HbvParams<Real<T>>,
    suz: Real<T>,
    slz: Real<T>,
    recharge: Real<T>,
)
    requires
        hbv_fault(prm) is None,
    ensures
        ({
            let out = response_step(prm, suz, slz, recharge);
            &&& out.suz.v + out.slz.v + out.runoff.v == suz.v + slz.v + recharge.v
            &&& suz.v >= 0real && slz.v >= 0real && recharge.v >= 0real ==> {
                out.suz.v >= 0real && out.slz.v >= 0real && out.runoff.v >= 0real
            }
        }),
{
    if suz.v >= 0real && slz.v >= 0real && recharge.v >= 0real {
        let charged = suz.plus(recharge);
        let percolation = prm.perc.lesser(charged);
        let upper = charged.minus(percolation);
        let lower = slz.plus(percolation);
        let above = upper.minus(prm.uzl).greater(zero());
        lemma_share(prm.k0.v, above.v);
        let upper1 = upper.minus(prm.k0.times(above));
        assert(upper1.v >= 0real);
        lemma_share(prm.k1.v, upper1.v);
        lemma_share(prm.k2.v, lower.v);
    }
}

/// Routing keeps its buffer sound and releases what it does not hold.
pub(crate) proof fn lemma_routing<T: Elementary>(
    prm: HbvParams<Real<T>>,
    routing: Seq<Real<T>>,
    runoff: Real<T>,
)
    requires
        hbv_parameters(prm),
        routing.len() == buffer_len(prm.maxbas),
    ensures
        ({
            let charged = routing_charged(prm, routing, runoff);
            &&& charged.len() > 0
            &&& advanced(charged).len() == routing.len()
            &&& sum(advanced(charged)).v + charged[0].v == sum(routing).v + runoff.v
            &&& non_negative(routing) && runoff.v >= 0real ==> {
                routing_sound(prm, advanced(charged)) && charged[0].v >= 0real
            }
        }),
{
    let weights = triangle_weights(prm.maxbas);
    let charged = routing_charged(prm, routing, runoff);
    triangle_weights_sum_to_one(prm.maxbas);
    lemma_buffer_len(prm.maxbas);
    lemma_sum_spread(weights, routing, runoff);
    lemma_unit(runoff.v);
    lemma_sum_advanced(charged);
    if non_negative(routing) && runoff.v >= 0real {
        assert forall|i: int| 0 <= i < charged.len() implies (#[trigger] charged[i]).v
            >= 0real by {
            assert(routing[i].v >= 0real);
            assert(weights[i].v >= 0real);
            lemma_product_sign(weights[i].v, runoff.v);
        }
        let next = advanced(charged);
        assert forall|i: int| 0 <= i < next.len() implies (#[trigger] next[i]).v >= 0real by {
            if i < next.len() - 1 {
                assert(next[i] == charged[i + 1]);
            }
        }
    }
}

/// Stores stay sound: no store becomes negative and the soil never exceeds its
/// capacity. Discharge is not negative, and evapotranspiration lies between
/// zero and its demand.
pub proof fn hbv_step_stays_sound<T: Elementary>(
    prm: HbvParams<Real<T>>,
    st: HbvStores<Real<T>>,
    p: Real<T>,
    temp: Option<Real<T>>,
    pet: Real<T>,
)
    requires
        lawful_pow::<T>(),
        hbv_parameters(prm),
        hbv_sound(prm, st),
        p.v >= 0real,
        pet.v >= 0real,
    ensures
        hbv_sound(prm, hbv_next(prm, st, p, temp, pet)),
        hbv_discharge(prm, st, p, temp, pet).v >= 0real,
        0real <= hbv_aet(prm, st, p, temp, pet).v <= pet.v,
{
    let snow = cover_step(prm, st.snowpack, st.liquid_water, p, temp);
    let soil = soil_step(prm, st.soil_moisture, snow.release, pet);
    let response = response_step(prm, st.suz, st.slz, soil.recharge);
    lemma_snow(prm, st.snowpack, st.liquid_water, p, temp);
    lemma_soil(prm, st.soil_moisture, snow.release, pet);
    lemma_response(prm, st.suz, st.slz, soil.recharge);
    lemma_routing(prm, st.routing, response.runoff);
}

/// The water balance of a step closes: storage, discharge and
/// evapotranspiration after it account for the storage before it and the
/// corrected precipitation.
pub proof fn hbv_step_conserves_water<T: Elementary>(
    prm: HbvParams<Real<T>>,
    st: HbvStores<Real<T>>,
    p: Real<T>,
    temp: Option<Real<T>>,
    pet: Real<T>,
)
    requires
        hbv_parameters(prm),
        st.routing.len() == buffer_len(prm.maxbas),
    ensures
        hbv_storage(hbv_next(prm, st, p, temp, pet)).v + hbv_discharge(prm, st, p, temp, pet).v
            + hbv_aet(prm, st, p, temp, pet).v == hbv_storage(st).v + corrected(prm, p, temp).v,
        hbv_next(prm, st, p, temp, pet).routing.len() == st.routing.len(),
{
    let snow = cover_step(prm, st.snowpack, st.liquid_water, p, temp);
    let soil = soil_step(prm, st.soil_moisture, snow.release, pet);
    let response = response_step(prm, st.suz, st.slz, soil.recharge);
    lemma_snow(prm, st.snowpack, st.liquid_water, p, temp);
    lemma_soil(prm, st.soil_moisture, snow.release, pet);
    lemma_response(prm, st.suz, st.slz, soil.recharge);
    lemma_routing(prm, st.routing, response.runoff);
}

/// The default initial state is sound.
pub proof fn hbv_start_is_sound<T: Elementary>(prm: HbvParams<Real<T>>)
    requires
        hbv_parameters(prm),
    ensures
        hbv_sound(prm, hbv_start(prm)),
{
    lemma_half(prm.fc.v);
}

/// Over a whole run from a sound state every state stays sound and no discharge
/// is negative.
pub proof fn hbv_run_stays_sound<T: Elementary>(
    prm: HbvParams<Real<T>>,
    st: HbvStores<Real<T>>,
    precip: Seq<Real<T>>,
    pet: Seq<Real<T>>,
    temp: Option<Seq<Real<T>>>,
    n: nat,
)
    requires
        lawful_pow::<T>(),
        hbv_parameters(prm),
        hbv_sound(prm, st),
        n <= precip.len(),
        precip.len() == pet.len(),
        non_negative(precip),
        non_negative(pet),
    ensures
        hbv_sound(prm, hbv_after(prm, st, precip, pet, temp, n)),
        forall|i: int|
            0 <= i < n ==> (#[trigger] hbv_series(prm, st, precip, pet, temp)[i]).v >= 0real,
    decreases n,
{
    if n > 0 {
        let i = (n - 1) as nat;
        hbv_run_stays_sound(prm, st, precip, pet, temp, i);
        assert(precip[i as int].v >= 0real);
        assert(pet[i as int].v >= 0real);
        hbv_step_stays_sound(
            prm,
            hbv_after(prm, st, precip, pet, temp, i),
            precip[i as int],
            temp_at(temp, i as int),
            pet[i as int],
        );
    }
}

/// Corrected precipitation of the first `n` steps.
pub open spec fn taken_in<T: Elementary>(
    prm: HbvParams<Real<T>>,
    precip: Seq<Real<T>>,
    temp: Option<Seq<Real<T>>>,
    n: nat,
) -> real
    decreases n,
{
    if n == 0 {
        0real
    } else {
        taken_in(prm, precip, temp, (n - 1) as nat) + corrected(
            prm,
            precip[n - 1],
            temp_at(temp, n - 1),
        ).v
    }
}

/// Evapotranspiration of the first `n` steps.
pub open spec fn evaporated<T: Elementary>(
    prm: HbvParams<Real<T>>,
    st: HbvStores<Real<T>>,
    precip: Seq<Real<T>>,
    pet: Seq<Real<T>>,
    temp: Option<Seq<Real<T>>>,
    n: nat,
) -> real
    decreases n,
{
    if n == 0 {
        0real
    } else {
        evaporated(prm, st, precip, pet, temp, (n - 1) as nat) + hbv_aet(
            prm,
            hbv_after(prm, st, precip, pet, temp, (n - 1) as nat),
            precip[n - 1],
            temp_at(temp, n - 1),
            pet[n - 1],
        ).v
    }
}

/// The water balance of a run closes: final storage, discharge and
/// evapotranspiration account for the initial storage and the corrected
/// precipitation.
pub proof fn hbv_run_conserves_water<T: Elementary>(
    prm: HbvParams<Real<T>>,
    st: HbvStores<Real<T>>,
    precip: Seq<Real<T>>,
    pet: Seq<Real<T>>,
    temp: Option<Seq<Real<T>>>,
    n: nat,
)
    requires
        hbv_parameters(prm),
        st.routing.len() == buffer_len(prm.maxbas),
        n <= precip.len(),
        precip.len() == pet.len(),
    ensures
        hbv_storage(hbv_after(prm, st, precip, pet, temp, n)).v + sum(
            hbv_series(prm, st, precip, pet, temp).take(n as int),
        ).v + evaporated(prm, st, precip, pet, temp, n) == hbv_storage(st).v + taken_in(
            prm,
            precip,
            temp,
            n,
        ),
        hbv_after(prm, st, precip, pet, temp, n).routing.len() == st.routing.len(),
    decreases n,
{
    let q = hbv_series(prm, st, precip, pet, temp);
    if n > 0 {
        let i = (n - 1) as nat;
        hbv_run_conserves_water(prm, st, precip, pet, temp, i);
        hbv_step_conserves_water(
            prm,
            hbv_after(prm, st, precip, pet, temp, i),
            precip[i as int],
            temp_at(temp, i as int),
            pet[i as int],
        );
        assert(q.take(n as int).drop_last() =~= q.take(i as int));
    }
}

/// Without a temperature series the snow stores are never touched.
pub proof fn hbv_without_temperature_leaves_snow_alone<F: Arith>(
    prm: HbvParams<F>,
    st: HbvStores<F>,
    precip: Seq<F>,
    pet: Seq<F>,
    n: nat,
)
    ensures
        hbv_after(prm, st, precip, pet, None, n).snowpack == st.snowpack,
        hbv_after(prm, st, precip, pet, None, n).liquid_water == st.liquid_water,
    decreases n,
{
    if n > 0 {
        hbv_without_temperature_leaves_snow_alone(prm, st, precip, pet, (n - 1) as nat);
    }
}

/// Below the threshold temperature a pack without liquid water gathers the
/// corrected snowfall and releases nothing.
proof fn lemma_cold_step<T: Elementary>(
    prm: HbvParams<Real<T>>,
    st: HbvStores<Real<T>>,
    p: Real<T>,
    t: Real<T>,
    pet: Real<T>,
)
    requires
        hbv_fault(prm) is None,
        t.v < prm.tt.v,
        st.snowpack.v >= 0real,
        st.liquid_water.v == 0real,
        p.v >= 0real,
    ensures
        ({
            let next = hbv_next(prm, st, p, Some(t), pet);
            &&& next.snowpack.v == st.snowpack.v + p.v * prm.sfcf.v
            &&& next.snowpack.v >= 0real
            &&& next.liquid_water.v == 0real
        }),
{
    lemma_product_sign(prm.cfr.v, prm.cfmax.v);
    lemma_product_sign(prm.cfr.v * prm.cfmax.v, prm.tt.v - t.v);
    lemma_product_sign(p.v, prm.sfcf.v);
    lemma_product_sign(prm.cwh.v, st.snowpack.v + p.v * prm.sfcf.v);
}

/// During a run below the threshold temperature the snowpack gathers all
/// corrected snowfall.
pub proof fn snow_accumulates_below_the_threshold<T: Elementary>(
    prm: HbvParams<Real<T>>,
    st: HbvStores<Real<T>>,
    precip: Seq<Real<T>>,
    pet: Seq<Real<T>>,
    temp: Seq<Real<T>>,
    n: nat,
)
    requires
        hbv_fault(prm) is None,
        n <= precip.len(),
        precip.len() == temp.len(),
        precip.len() == pet.len(),
        non_negative(precip),
        forall|i: int| 0 <= i < temp.len() ==> (#[trigger] temp[i]).v < prm.tt.v,
        st.snowpack.v >= 0real,
        st.liquid_water.v == 0real,
    ensures
        ({
            let after = hbv_after(prm, st, precip, pet, Some(temp), n);
            &&& after.snowpack.v == st.snowpack.v + sum(precip.take(n as int)).v * prm.sfcf.v
            &&& after.snowpack.v >= 0real
            &&& after.liquid_water.v == 0real
        }),
    decreases n,
{
    if n == 0 {
        lemma_unit(prm.sfcf.v);
    } else {
        let i = n - 1;
        snow_accumulates_below_the_threshold(prm, st, precip, pet, temp, i as nat);
        assert(temp[i].v < prm.tt.v);
        assert(precip[i].v >= 0real);
        lemma_cold_step(
            prm,
            hbv_after(prm, st, precip, pet, Some(temp), i as nat),
            precip[i],
            temp[i],
            pet[i],
        );
        assert(precip.take(n as int).drop_last() =~= precip.take(i));
        lemma_distribute(sum(precip.take(i)).v, precip[i].v, prm.sfcf.v);
    }
}

/// At and above the threshold temperature the snowpack melts by the degree-day
/// amount, as far as there is snow.
pub proof fn snow_melts_above_the_threshold<T: Elementary>(
    prm: HbvParams<Real<T>>,
    st: HbvStores<Real<T>>,
    p: Real<T>,
    t: Real<T>,
    pet: Real<T>,
)
    requires
        t.v >= prm.tt.v,
    ensures
        ({
            let left = st.snowpack.v - prm.cfmax.v * (t.v - prm.tt.v);
            hbv_next(prm, st, p, Some(t), pet).snowpack.v == if left >= 0real {
                left
            } else {
                0real
            }
        }),
{
}

/// A step without snow at or above the threshold temperature is a step without
/// temperature.
proof fn lemma_warm_step<T: Elementary>(
    prm: HbvParams<Real<T>>,
    st: HbvStores<Real<T>>,
    p: Real<T>,
    t: Real<T>,
    pet: Real<T>,
)
    requires
        hbv_fault(prm) is None,
        t.v >= prm.tt.v,
        st.snowpack.v == 0real,
        st.liquid_water.v == 0real,
        p.v >= 0real,
    ensures
        hbv_next(prm, st, p, Some(t), pet) == hbv_next(prm, st, p, None, pet),
        hbv_discharge(prm, st, p, Some(t), pet) == hbv_discharge(prm, st, p, None, pet),
        hbv_next(prm, st, p, None, pet).snowpack.v == 0real,
        hbv_next(prm, st, p, None, pet).liquid_water.v == 0real,
{
    lemma_product_sign(prm.cfmax.v, t.v - prm.tt.v);
    lemma_unit(prm.cwh.v);
    assert(cover_step(prm, st.snowpack, st.liquid_water, p, Some(t)) == cover_step(
        prm,
        st.snowpack,
        st.liquid_water,
        p,
        None,
    ));
}

/// Where it is never below the threshold temperature and there is no snow to
/// begin with, a run with temperature is the run without.
pub proof fn warm_run_needs_no_temperature<T: Elementary>(
    prm: HbvParams<Real<T>>,
    st: HbvStores<Real<T>>,
    precip: Seq<Real<T>>,
    pet: Seq<Real<T>>,
    temp: Seq<Real<T>>,
    n: nat,
)
    requires
        hbv_fault(prm) is None,
        n <= precip.len(),
        precip.len() == temp.len(),
        precip.len() == pet.len(),
        non_negative(precip),
        forall|i: int| 0 <= i < temp.len() ==> (#[trigger] temp[i]).v >= prm.tt.v,
        st.snowpack.v == 0real,
        st.liquid_water.v == 0real,
    ensures
        hbv_after(prm, st, precip, pet, Some(temp), n) == hbv_after(
            prm,
            st,
            precip,
            pet,
            None,
            n,
        ),
        hbv_after(prm, st, precip, pet, None, n).snowpack.v == 0real,
        hbv_after(prm, st, precip, pet, None, n).liquid_water.v == 0real,
        forall|i: int|
            0 <= i < n ==> #[trigger] hbv_series(prm, st, precip, pet, Some(temp))[i]
                == hbv_series(prm, st, precip, pet, None)[i],
    decreases n,
{
    if n > 0 {
        let i = n - 1;
        warm_run_needs_no_temperature(prm, st, precip, pet, temp, i as nat);
        assert(temp[i].v >= prm.tt.v);
        assert(precip[i].v >= 0real);
        lemma_warm_step(
            prm,
            hbv_after(prm, st, precip, pet, None, i as nat),
            precip[i],
            temp[i],
            pet[i],
        );
    }
}

} // verus!
