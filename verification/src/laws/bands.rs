//! Laws of the semi-distributed model: stores stay sound, water is conserved,
//! a single band is the lumped model.
use vstd::prelude::*;
use crate::bands::BandState;
use crate::hbv::HbvParams;

verus! {

use crate::bands::{
    band_next, band_precip, band_recharge, band_temp, banded_after, banded_discharge, banded_next,
    banded_series, banded_start, catchment_recharge, lift, paired_bands, total_recharge,
    BandedStores, Layout,
};
use crate::exact::{lawful_pow, Elementary, Real};
use crate::hbv::{
    cover_step, hbv_after, hbv_discharge, hbv_next, hbv_series, hbv_start, response_step,
    snow_step, soil_step, HbvStores,
};
use crate::laws::algebra::{lemma_distribute, lemma_half, lemma_product_sign, lemma_unit};
use crate::laws::hbv::{
    corrected, hbv_parameters, lemma_response, lemma_routing, lemma_snow, lemma_soil,
    routing_sound, snow_sound, soil_sound,
};
use crate::laws::sums::non_negative;
use crate::number::{one, sum, Arith};
use crate::uh::buffer_len;

/// Whether no store of a band is negative and its soil is within capacity.
pub open spec fn band_sound<T: Elementary>(prm: HbvParams<Real<T>>, b: BandState<Real<T>>) -> bool {
    snow_sound(b.snowpack, b.liquid_water) && soil_sound(prm, b.soil_moisture)
}

/// Whether every band has a state and no store is negative or above capacity.
pub open spec fn banded_sound<T: Elementary>(
    prm: HbvParams<Real<T>>,
    cfg: Layout<Real<T>>,
    st: BandedStores<Real<T>>,
) -> bool {
    &&& st.bands.len() == cfg.bands.len()
    &&& forall|i: int| 0 <= i < st.bands.len() ==> band_sound(prm, #[trigger] st.bands[i])
    &&& st.suz.v >= 0real
    &&& st.slz.v >= 0real
    &&& routing_sound(prm, st.routing)
}

/// Whether no band has a negative area.
pub open spec fn areas_sound<T: Elementary>(cfg: Layout<Real<T>>) -> bool {
    forall|i: int| 0 <= i < cfg.bands.len() ==> (#[trigger] cfg.bands[i]).area_fraction.v >= 0real
}

/// Evapotranspiration of band `i` in a step.
pub open spec fn band_aet<T: Elementary>(
    prm: HbvParams<Real<T>>,
    cfg: Layout<Real<T>>,
    i: int,
    st: BandState<Real<T>>,
    p: Real<T>,
    t: Real<T>,
    pet: Real<T>,
) -> Real<T> {
    let snow = snow_step(
        prm,
        st.snowpack,
        st.liquid_water,
        band_precip(cfg, i, p),
        band_temp(cfg, i, t),
    );
    soil_step(prm, st.soil_moisture, snow.release, pet).aet
}

/// A step of one band: it stays sound and conserves water.
proof fn lemma_band<T: Elementary>(
    prm: HbvParams<Real<T>>,
    cfg: Layout<Real<T>>,
    i: int,
    st: BandState<Real<T>>,
    p: Real<T>,
    t: Real<T>,
    pet: Real<T>,
)
    requires
        hbv_parameters(prm),
    ensures
        ({
            let next = band_next(prm, cfg, i, st, p, t, pet);
            let recharge = band_recharge(prm, cfg, i, st, p, t, pet);
            let aet = band_aet(prm, cfg, i, st, p, t, pet);
            &&& band_water(next) + recharge.v + aet.v == band_water(st) + corrected(
                prm,
                band_precip(cfg, i, p),
                Some(band_temp(cfg, i, t)),
            ).v
            &&& lawful_pow::<T>() && band_sound(prm, st) && pet.v >= 0real ==> {
                band_sound(prm, next) && recharge.v >= 0real && 0real <= aet.v <= pet.v
            }
        }),
{
    let bp = band_precip(cfg, i, p);
    let bt = band_temp(cfg, i, t);
    assert(bp.v >= 0real);
    let snow = snow_step(prm, st.snowpack, st.liquid_water, bp, bt);
    assert(snow == cover_step(prm, st.snowpack, st.liquid_water, bp, Some(bt)));
    lemma_snow(prm, st.snowpack, st.liquid_water, bp, Some(bt));
    lemma_soil(prm, st.soil_moisture, snow.release, pet);
}

/// Recharge of sound bands is not negative.
proof fn lemma_recharge_sign<T: Elementary>(
    prm: HbvParams<Real<T>>,
    cfg: Layout<Real<T>>,
    st: BandedStores<Real<T>>,
    p: Real<T>,
    t: Real<T>,
    pet: Real<T>,
    n: nat,
)
    requires
        lawful_pow::<T>(),
        hbv_parameters(prm),
        banded_sound(prm, cfg, st),
        areas_sound(cfg),
        pet.v >= 0real,
        n <= cfg.bands.len(),
    ensures
        total_recharge(prm, cfg, st.bands, p, t, pet, n).v >= 0real,
    decreases n,
{
    if n > 0 {
        let i = n - 1;
        lemma_recharge_sign(prm, cfg, st, p, t, pet, i as nat);
        assert(band_sound(prm, st.bands[i]));
        lemma_band(prm, cfg, i, st.bands[i], p, t, pet);
        assert(cfg.bands[i].area_fraction.v >= 0real);
        lemma_product_sign(
            cfg.bands[i].area_fraction.v,
            band_recharge(prm, cfg, i, st.bands[i], p, t, pet).v,
        );
    }
}

/// Stores stay sound in every band, and discharge is not negative.
pub proof fn banded_step_stays_sound<T: Elementary>(
    prm: HbvParams<Real<T>>,
    cfg: Layout<Real<T>>,
    st: BandedStores<Real<T>>,
    p: Real<T>,
    t: Real<T>,
    pet: Real<T>,
)
    requires
        lawful_pow::<T>(),
        hbv_parameters(prm),
        banded_sound(prm, cfg, st),
        areas_sound(cfg),
        pet.v >= 0real,
    ensures
        banded_sound(prm, cfg, banded_next(prm, cfg, st, p, t, pet)),
        banded_discharge(prm, cfg, st, p, t, pet).v >= 0real,
{
    let recharge = catchment_recharge(prm, cfg, st, p, t, pet);
    lemma_recharge_sign(prm, cfg, st, p, t, pet, cfg.bands.len());
    let response = response_step(prm, st.suz, st.slz, recharge);
    lemma_response(prm, st.suz, st.slz, recharge);
    lemma_routing(prm, st.routing, response.runoff);
    let next = banded_next(prm, cfg, st, p, t, pet);
    assert forall|i: int| 0 <= i < next.bands.len() implies band_sound(
        prm,
        #[trigger] next.bands[i],
    ) by {
        assert(band_sound(prm, st.bands[i]));
        lemma_band(prm, cfg, i, st.bands[i], p, t, pet);
    }
}

/// Over a whole run from a sound state every state stays sound and no discharge
/// is negative.
pub proof fn banded_run_stays_sound<T: Elementary>(
    prm: HbvParams<Real<T>>,
    cfg: Layout<Real<T>>,
    st: BandedStores<Real<T>>,
    precip: Seq<Real<T>>,
    pet: Seq<Real<T>>,
    temp: Seq<Real<T>>,
    n: nat,
)
    requires
        lawful_pow::<T>(),
        hbv_parameters(prm),
        banded_sound(prm, cfg, st),
        areas_sound(cfg),
        n <= precip.len(),
        precip.len() == pet.len(),
        precip.len() == temp.len(),
        non_negative(pet),
    ensures
        banded_sound(prm, cfg, banded_after(prm, cfg, st, precip, pet, temp, n)),
        forall|i: int|
            0 <= i < n ==> (#[trigger] banded_series(prm, cfg, st, precip, pet, temp)[i]).v
                >= 0real,
    decreases n,
{
    if n > 0 {
        let i = n - 1;
        banded_run_stays_sound(prm, cfg, st, precip, pet, temp, i as nat);
        assert(pet[i].v >= 0real);
        banded_step_stays_sound(
            prm,
            cfg,
            banded_after(prm, cfg, st, precip, pet, temp, i as nat),
            precip[i],
            temp[i],
            pet[i],
        );
    }
}

/// The default initial state is sound.
pub proof fn banded_start_is_sound<T: Elementary>(prm: HbvParams<Real<T>>, cfg: Layout<Real<T>>)
    requires
        hbv_parameters(prm),
    ensures
        banded_sound(prm, cfg, banded_start(prm, cfg)),
{
    lemma_half(prm.fc.v);
}

/// Water in a band, per unit of its area.
pub open spec fn band_water<T: Elementary>(b: BandState<Real<T>>) -> real {
    b.snowpack.v + b.liquid_water.v + b.soil_moisture.v
}

/// Water in the first `n` bands, weighted by area.
pub open spec fn bands_water<T: Elementary>(
    cfg: Layout<Real<T>>,
    bands: Seq<BandState<Real<T>>>,
    n: nat,
) -> real
    decreases n,
{
    if n == 0 {
        0real
    } else {
        bands_water(cfg, bands, (n - 1) as nat) + cfg.bands[n - 1].area_fraction.v * band_water(
            bands[n - 1],
        )
    }
}

/// Water in the bands, the response stores and in transit.
pub open spec fn banded_storage<T: Elementary>(
    cfg: Layout<Real<T>>,
    st: BandedStores<Real<T>>,
) -> real {
    bands_water(cfg, st.bands, cfg.bands.len()) + st.suz.v + st.slz.v + sum(st.routing).v
}

/// Evapotranspiration of the first `n` bands in a step, weighted by area.
pub open spec fn bands_aet<T: Elementary>(
    prm: HbvParams<Real<T>>,
    cfg: Layout<Real<T>>,
    bands: Seq<BandState<Real<T>>>,
    p: Real<T>,
    t: Real<T>,
    pet: Real<T>,
    n: nat,
) -> real
    decreases n,
{
    if n == 0 {
        0real
    } else {
        bands_aet(prm, cfg, bands, p, t, pet, (n - 1) as nat) + cfg.bands[n - 1].area_fraction.v
            * band_aet(prm, cfg, n - 1, bands[n - 1], p, t, pet).v
    }
}

/// Corrected precipitation of the first `n` bands in a step, weighted by area.
pub open spec fn bands_input<T: Elementary>(
    prm: HbvParams<Real<T>>,
    cfg: Layout<Real<T>>,
    p: Real<T>,
    t: Real<T>,
    n: nat,
) -> real
    decreases n,
{
    if n == 0 {
        0real
    } else {
        bands_input(prm, cfg, p, t, (n - 1) as nat) + cfg.bands[n - 1].area_fraction.v
            * corrected(prm, band_precip(cfg, n - 1, p), Some(band_temp(cfg, n - 1, t))).v
    }
}

/// Water balance of the first `n` bands.
proof fn lemma_bands_balance<T: Elementary>(
    prm: HbvParams<Real<T>>,
    cfg: Layout<Real<T>>,
    st: BandedStores<Real<T>>,
    p: Real<T>,
    t: Real<T>,
    pet: Real<T>,
    n: nat,
)
    requires
        hbv_parameters(prm),
        st.bands.len() == cfg.bands.len(),
        n <= cfg.bands.len(),
    ensures
        bands_water(cfg, banded_next(prm, cfg, st, p, t, pet).bands, n) + total_recharge(
            prm,
            cfg,
            st.bands,
            p,
            t,
            pet,
            n,
        ).v + bands_aet(prm, cfg, st.bands, p, t, pet, n) == bands_water(cfg, st.bands, n)
            + bands_input(prm, cfg, p, t, n),
    decreases n,
{
    if n > 0 {
        let i = n - 1;
        lemma_bands_balance(prm, cfg, st, p, t, pet, i as nat);
        lemma_band(prm, cfg, i, st.bands[i], p, t, pet);
        let a = cfg.bands[i].area_fraction.v;
        let next = band_water(band_next(prm, cfg, i, st.bands[i], p, t, pet));
        let recharge = band_recharge(prm, cfg, i, st.bands[i], p, t, pet).v;
        let aet = band_aet(prm, cfg, i, st.bands[i], p, t, pet).v;
        let input = corrected(prm, band_precip(cfg, i, p), Some(band_temp(cfg, i, t))).v;
        lemma_distribute(next, recharge, a);
        lemma_distribute(next + recharge, aet, a);
        lemma_distribute(band_water(st.bands[i]), input, a);
    }
}

/// The water balance of a step closes over all bands: storage, discharge and
/// evapotranspiration after it account for the storage before it and the
/// corrected precipitation of the bands.
pub proof fn banded_step_conserves_water<T: Elementary>(
    prm: HbvParams<Real<T>>,
    cfg: Layout<Real<T>>,
    st: BandedStores<Real<T>>,
    p: Real<T>,
    t: Real<T>,
    pet: Real<T>,
)
    requires
        hbv_parameters(prm),
        st.bands.len() == cfg.bands.len(),
        st.routing.len() == buffer_len(prm.maxbas),
    ensures
        banded_storage(cfg, banded_next(prm, cfg, st, p, t, pet)) + banded_discharge(
            prm,
            cfg,
            st,
            p,
            t,
            pet,
        ).v + bands_aet(prm, cfg, st.bands, p, t, pet, cfg.bands.len()) == banded_storage(cfg, st)
            + bands_input(prm, cfg, p, t, cfg.bands.len()),
        banded_next(prm, cfg, st, p, t, pet).bands.len() == st.bands.len(),
        banded_next(prm, cfg, st, p, t, pet).routing.len() == st.routing.len(),
{
    let recharge = catchment_recharge(prm, cfg, st, p, t, pet);
    let response = response_step(prm, st.suz, st.slz, recharge);
    lemma_bands_balance(prm, cfg, st, p, t, pet, cfg.bands.len());
    lemma_response(prm, st.suz, st.slz, recharge);
    lemma_routing(prm, st.routing, response.runoff);
}

/// Evapotranspiration of the first `n` steps.
pub open spec fn banded_evaporated<T: Elementary>(
    prm: HbvParams<Real<T>>,
    cfg: Layout<Real<T>>,
    st: BandedStores<Real<T>>,
    precip: Seq<Real<T>>,
    pet: Seq<Real<T>>,
    temp: Seq<Real<T>>,
    n: nat,
) -> real
    decreases n,
{
    if n == 0 {
        0real
    } else {
        banded_evaporated(prm, cfg, st, precip, pet, temp, (n - 1) as nat) + bands_aet(
            prm,
            cfg,
            banded_after(prm, cfg, st, precip, pet, temp, (n - 1) as nat).bands,
            precip[n - 1],
            temp[n - 1],
            pet[n - 1],
            cfg.bands.len(),
        )
    }
}

/// Corrected precipitation of the first `n` steps.
pub open spec fn banded_taken_in<T: Elementary>(
    prm: HbvParams<Real<T>>,
    cfg: Layout<Real<T>>,
    precip: Seq<Real<T>>,
    temp: Seq<Real<T>>,
    n: nat,
) -> real
    decreases n,
{
    if n == 0 {
        0real
    } else {
        banded_taken_in(prm, cfg, precip, temp, (n - 1) as nat) + bands_input(
            prm,
            cfg,
            precip[n - 1],
            temp[n - 1],
            cfg.bands.len(),
        )
    }
}

/// The water balance of a run closes over all bands.
pub proof fn banded_run_conserves_water<T: Elementary>(
    prm: HbvParams<Real<T>>,
    cfg: Layout<Real<T>>,
    st: BandedStores<Real<T>>,
    precip: Seq<Real<T>>,
    pet: Seq<Real<T>>,
    temp: Seq<Real<T>>,
    n: nat,
)
    requires
        hbv_parameters(prm),
        st.bands.len() == cfg.bands.len(),
        st.routing.len() == buffer_len(prm.maxbas),
        n <= precip.len(),
        precip.len() == pet.len(),
        precip.len() == temp.len(),
    ensures
        banded_storage(cfg, banded_after(prm, cfg, st, precip, pet, temp, n)) + sum(
            banded_series(prm, cfg, st, precip, pet, temp).take(n as int),
        ).v + banded_evaporated(prm, cfg, st, precip, pet, temp, n) == banded_storage(cfg, st)
            + banded_taken_in(prm, cfg, precip, temp, n),
        banded_after(prm, cfg, st, precip, pet, temp, n).bands.len() == st.bands.len(),
        banded_after(prm, cfg, st, precip, pet, temp, n).routing.len() == st.routing.len(),
    decreases n,
{
    let q = banded_series(prm, cfg, st, precip, pet, temp);
    if n > 0 {
        let i = n - 1;
        banded_run_conserves_water(prm, cfg, st, precip, pet, temp, i as nat);
        banded_step_conserves_water(
            prm,
            cfg,
            banded_after(prm, cfg, st, precip, pet, temp, i as nat),
            precip[i],
            temp[i],
            pet[i],
        );
        assert(q.take(n as int).drop_last() =~= q.take(i));
    }
}

/// Whether a layout is one band over the whole area at the elevation that the
/// forcing represents.
pub open spec fn single_reference_band<T: Elementary>(cfg: Layout<Real<T>>) -> bool {
    &&& cfg.bands.len() == 1
    &&& cfg.bands[0].elevation == cfg.reference_elevation
    &&& cfg.bands[0].area_fraction == one::<Real<T>>()
}

/// Whether the state of a single band is that of the lumped model.
pub open spec fn same_state<F>(banded: BandedStores<F>, lumped: HbvStores<F>) -> bool {
    &&& banded.bands.len() == 1
    &&& banded.bands[0].snowpack == lumped.snowpack
    &&& banded.bands[0].liquid_water == lumped.liquid_water
    &&& banded.bands[0].soil_moisture == lumped.soil_moisture
    &&& banded.suz == lumped.suz
    &&& banded.slz == lumped.slz
    &&& banded.routing == lumped.routing
}

/// A step of a single band at the reference elevation is a step of the lumped
/// model.
proof fn lemma_single_band_step<T: Elementary>(
    prm: HbvParams<Real<T>>,
    cfg: Layout<Real<T>>,
    banded: BandedStores<Real<T>>,
    lumped: HbvStores<Real<T>>,
    p: Real<T>,
    t: Real<T>,
    pet: Real<T>,
)
    requires
        single_reference_band(cfg),
        same_state(banded, lumped),
        p.v >= 0real,
    ensures
        same_state(
            banded_next(prm, cfg, banded, p, t, pet),
            hbv_next(prm, lumped, p, Some(t), pet),
        ),
        banded_discharge(prm, cfg, banded, p, t, pet) == hbv_discharge(
            prm,
            lumped,
            p,
            Some(t),
            pet,
        ),
{
    let h = Real::<T>::literal(1, 100).v;
    lemma_unit(h);
    assert(lift(cfg, 0).v == 0real);
    lemma_unit(cfg.tcalt.v);
    lemma_unit(cfg.pcalt.v);
    lemma_unit(p.v);
    assert(band_temp(cfg, 0, t) == t);
    assert(band_precip(cfg, 0, p) == p);
    let r = band_recharge(prm, cfg, 0, banded.bands[0], p, t, pet);
    lemma_unit(r.v);
    assert(total_recharge(prm, cfg, banded.bands, p, t, pet, 0).v == 0real);
    assert(total_recharge(prm, cfg, banded.bands, p, t, pet, 1) == r) by {
        reveal_with_fuel(total_recharge, 2);
    }
    assert(paired_bands(cfg, banded.bands) == 1);
}

/// One band over the whole area at the elevation of the forcing gives the
/// discharge of the lumped model.
pub proof fn single_band_is_the_lumped_model<T: Elementary>(
    prm: HbvParams<Real<T>>,
    cfg: Layout<Real<T>>,
    precip: Seq<Real<T>>,
    pet: Seq<Real<T>>,
    temp: Seq<Real<T>>,
)
    requires
        single_reference_band(cfg),
        precip.len() == pet.len(),
        precip.len() == temp.len(),
        non_negative(precip),
    ensures
        banded_series(prm, cfg, banded_start(prm, cfg), precip, pet, temp) =~= hbv_series(
            prm,
            hbv_start(prm),
            precip,
            pet,
            Some(temp),
        ),
{
    let (b, l) = (banded_start(prm, cfg), hbv_start(prm));
    let banded = banded_series(prm, cfg, b, precip, pet, temp);
    assert forall|i: int| 0 <= i < banded.len() implies #[trigger] banded[i] == hbv_series(
        prm,
        l,
        precip,
        pet,
        Some(temp),
    )[i] by {
        lemma_single_band_after(prm, cfg, precip, pet, temp, i as nat);
        assert(precip[i].v >= 0real);
        lemma_single_band_step(
            prm,
            cfg,
            banded_after(prm, cfg, b, precip, pet, temp, i as nat),
            hbv_after(prm, l, precip, pet, Some(temp), i as nat),
            precip[i],
            temp[i],
            pet[i],
        );
    }
}

/// The states of [`single_band_is_the_lumped_model`].
proof fn lemma_single_band_after<T: Elementary>(
    prm: HbvParams<Real<T>>,
    cfg: Layout<Real<T>>,
    precip: Seq<Real<T>>,
    pet: Seq<Real<T>>,
    temp: Seq<Real<T>>,
    n: nat,
)
    requires
        single_reference_band(cfg),
        precip.len() == pet.len(),
        precip.len() == temp.len(),
        non_negative(precip),
        n <= precip.len(),
    ensures
        same_state(
            banded_after(prm, cfg, banded_start(prm, cfg), precip, pet, temp, n),
            hbv_after(prm, hbv_start(prm), precip, pet, Some(temp), n),
        ),
    decreases n,
{
    if n > 0 {
        let i = n - 1;
        lemma_single_band_after(prm, cfg, precip, pet, temp, i as nat);
        assert(precip[i].v >= 0real);
        lemma_single_band_step(
            prm,
            cfg,
            banded_after(prm, cfg, banded_start(prm, cfg), precip, pet, temp, i as nat),
            hbv_after(prm, hbv_start(prm), precip, pet, Some(temp), i as nat),
            precip[i],
            temp[i],
            pet[i],
        );
    }
}

} // verus!
