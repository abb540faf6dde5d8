//! What elevation does to a band, as relations between bands and between the
//! semi-distributed and the lumped model.
use vstd::prelude::*;
use crate::bands::BandState;
use crate::hbv::HbvParams;

verus! {

use crate::bands::{
    band_precip, band_recharge, band_temp, banded_after, banded_discharge, banded_next,
    banded_series, banded_start, catchment_recharge, lift, total_recharge, BandedStores, Layout,
};
use crate::exact::{re, real_ceiling, Elementary, Real};
use crate::hbv::{cover_step, hbv_next, triangle_weights, HbvStores};
use crate::laws::algebra::{
    lemma_distribute, lemma_half, lemma_positive_product, lemma_quotient, lemma_quotient_sign,
    lemma_unit,
};
use crate::laws::hbv::{hbv_parameters, lemma_snow, lemma_soil};
use crate::laws::hbv_equations::{leaving_soil, smaller};
use crate::laws::unit_hydrograph::lemma_buffer_len;
use crate::number::{sum, Arith};
use crate::uh::buffer_len;

/// A hundredth of a number.
proof fn lemma_hundredth(a: real)
    by (nonlinear_arith)
    ensures
        a * (1real / 100real) == a / 100real,
{
}

/// The temperature of two bands differs by TCALT for every 100 m between them,
/// and the lower one is the warmer where TCALT is positive, wherever the
/// reference lies. A band at the reference has the temperature of the forcing.
pub proof fn temperature_falls_with_elevation<T: Elementary>(
    cfg: Layout<Real<T>>,
    i: int,
    j: int,
    t: Real<T>,
)
    ensures
        band_temp(cfg, i, t).v - band_temp(cfg, j, t).v == cfg.tcalt.v * ((
        cfg.bands[j].elevation.v - cfg.bands[i].elevation.v) / 100real),
        band_temp(cfg, i, t).v - t.v == cfg.tcalt.v * ((cfg.reference_elevation.v
            - cfg.bands[i].elevation.v) / 100real),
        cfg.tcalt.v > 0real && cfg.bands[i].elevation.v < cfg.bands[j].elevation.v
            ==> band_temp(cfg, i, t).v > band_temp(cfg, j, t).v,
{
    let (ei, ej, r) = (
        cfg.bands[i].elevation.v,
        cfg.bands[j].elevation.v,
        cfg.reference_elevation.v,
    );
    let (li, lj) = (lift(cfg, i).v, lift(cfg, j).v);
    lemma_hundredth(ei - r);
    lemma_hundredth(ej - r);
    lemma_hundredth(ej - ei);
    lemma_hundredth(r - ei);
    lemma_distribute(ej - r, ei - r, 1real / 100real);
    assert((ej - r) - (ei - r) == ej - ei);
    assert(lj - li == (ej - ei) / 100real);
    lemma_distribute(lj, li, cfg.tcalt.v);
    lemma_distribute(0real, ei - r, 1real / 100real);
    lemma_unit(1real / 100real);
    assert(0real - (ei - r) == r - ei);
    assert(0real - li == (r - ei) / 100real);
    lemma_distribute(0real, li, cfg.tcalt.v);
    lemma_unit(cfg.tcalt.v);
    if cfg.tcalt.v > 0real && ei < ej {
        lemma_quotient_sign(ej - ei, 100real);
        lemma_quotient(ej - ei, 100real);
        lemma_positive_product(cfg.tcalt.v, (ej - ei) / 100real);
    }
}

/// The precipitation of a band grows by the fraction PCALT for every 100 m above
/// the reference and falls by it below, and is never negative.
pub proof fn precipitation_grows_with_elevation<T: Elementary>(
    cfg: Layout<Real<T>>,
    i: int,
    p: Real<T>,
)
    ensures
        ({
            let factor = 1real + cfg.pcalt.v * ((cfg.bands[i].elevation.v
                - cfg.reference_elevation.v) / 100real);
            band_precip(cfg, i, p).v == if p.v * factor >= 0real {
                p.v * factor
            } else {
                0real
            }
        }),
{
    lemma_hundredth(cfg.bands[i].elevation.v - cfg.reference_elevation.v);
}

/// Whether `(p, t)` is the forcing `(lumped_p, lumped_t)` as band `i` gets it:
/// cooler by TCALT and with PCALT more precipitation for every 100 m above the
/// reference, warmer and with less below it.
pub open spec fn forcing_of_band<T: Elementary>(
    cfg: Layout<Real<T>>,
    i: int,
    lumped_p: Real<T>,
    lumped_t: Real<T>,
    p: Real<T>,
    t: Real<T>,
) -> bool {
    let up = (cfg.bands[i].elevation.v - cfg.reference_elevation.v) / 100real;
    let wetter = lumped_p.v * (1real + cfg.pcalt.v * up);
    &&& t.v == lumped_t.v - cfg.tcalt.v * up
    &&& p.v == if wetter >= 0real {
        wetter
    } else {
        0real
    }
}

/// Whether a state of the lumped model has the snow and soil of a band.
pub open spec fn stands_for<F>(h: HbvStores<F>, b: BandState<F>) -> bool {
    &&& h.snowpack == b.snowpack
    &&& h.liquid_water == b.liquid_water
    &&& h.soil_moisture == b.soil_moisture
}

/// The forcing of a band as the model computes it.
proof fn lemma_forcing_of_band<T: Elementary>(
    cfg: Layout<Real<T>>,
    i: int,
    lumped_p: Real<T>,
    lumped_t: Real<T>,
    p: Real<T>,
    t: Real<T>,
)
    requires
        forcing_of_band(cfg, i, lumped_p, lumped_t, p, t),
    ensures
        band_temp(cfg, i, lumped_t) == t,
        band_precip(cfg, i, lumped_p) == p,
{
    precipitation_grows_with_elevation(cfg, i, lumped_p);
    lemma_hundredth(cfg.bands[i].elevation.v - cfg.reference_elevation.v);
}

/// Snow and soil of a band do in a step what they do in the lumped model with
/// the forcing of the band.
pub proof fn each_band_is_a_lumped_model<T: Elementary>(
    prm: HbvParams<Real<T>>,
    cfg: Layout<Real<T>>,
    st: BandedStores<Real<T>>,
    lumped_p: Real<T>,
    lumped_t: Real<T>,
    pet: Real<T>,
    i: int,
    h: HbvStores<Real<T>>,
    p: Real<T>,
    t: Real<T>,
)
    requires
        0 <= i < st.bands.len(),
        i < cfg.bands.len(),
        stands_for(h, st.bands[i]),
        forcing_of_band(cfg, i, lumped_p, lumped_t, p, t),
    ensures
        stands_for(
            hbv_next(prm, h, p, Some(t), pet),
            banded_next(prm, cfg, st, lumped_p, lumped_t, pet).bands[i],
        ),
{
    lemma_forcing_of_band(cfg, i, lumped_p, lumped_t, p, t);
}

/// The share of each band in the recharge, by what leaves the soil of the
/// lumped model that stands for it.
pub open spec fn recharge_shares<T: Elementary>(
    prm: HbvParams<Real<T>>,
    cfg: Layout<Real<T>>,
    hs: Seq<HbvStores<Real<T>>>,
    ps: Seq<Real<T>>,
    ts: Seq<Real<T>>,
    pet: Real<T>,
) -> Seq<Real<T>> {
    Seq::new(
        cfg.bands.len(),
        |i: int|
            re(
                cfg.bands[i].area_fraction.v * leaving_soil(prm, hs[i], ps[i], Some(ts[i]), pet),
            ),
    )
}

/// Recharge of a band is what leaves the soil of the lumped model.
proof fn lemma_band_recharge<T: Elementary>(
    prm: HbvParams<Real<T>>,
    cfg: Layout<Real<T>>,
    i: int,
    b: BandState<Real<T>>,
    lumped_p: Real<T>,
    lumped_t: Real<T>,
    pet: Real<T>,
    h: HbvStores<Real<T>>,
    p: Real<T>,
    t: Real<T>,
)
    requires
        hbv_parameters(prm),
        stands_for(h, b),
        forcing_of_band(cfg, i, lumped_p, lumped_t, p, t),
    ensures
        band_recharge(prm, cfg, i, b, lumped_p, lumped_t, pet).v == leaving_soil(
            prm,
            h,
            p,
            Some(t),
            pet,
        ),
{
    lemma_forcing_of_band(cfg, i, lumped_p, lumped_t, p, t);
    let snow = cover_step(prm, h.snowpack, h.liquid_water, p, Some(t));
    lemma_snow(prm, h.snowpack, h.liquid_water, p, Some(t));
    lemma_soil(prm, h.soil_moisture, snow.release, pet);
}

/// Recharge adds up by area.
proof fn lemma_total<T: Elementary>(
    prm: HbvParams<Real<T>>,
    cfg: Layout<Real<T>>,
    bands: Seq<BandState<Real<T>>>,
    lumped_p: Real<T>,
    lumped_t: Real<T>,
    pet: Real<T>,
    hs: Seq<HbvStores<Real<T>>>,
    ps: Seq<Real<T>>,
    ts: Seq<Real<T>>,
    n: nat,
)
    requires
        hbv_parameters(prm),
        n <= cfg.bands.len(),
        bands.len() == cfg.bands.len(),
        forall|i: int|
            0 <= i < cfg.bands.len() ==> stands_for(hs[i], #[trigger] bands[i]) && forcing_of_band(
                cfg,
                i,
                lumped_p,
                lumped_t,
                ps[i],
                ts[i],
            ),
    ensures
        total_recharge(prm, cfg, bands, lumped_p, lumped_t, pet, n).v == sum(
            recharge_shares(prm, cfg, hs, ps, ts, pet).take(n as int),
        ).v,
    decreases n,
{
    let s = recharge_shares(prm, cfg, hs, ps, ts, pet);
    if n > 0 {
        let i = n - 1;
        lemma_total(prm, cfg, bands, lumped_p, lumped_t, pet, hs, ps, ts, i as nat);
        assert(stands_for(hs[i], bands[i]));
        lemma_band_recharge(
            prm,
            cfg,
            i,
            bands[i],
            lumped_p,
            lumped_t,
            pet,
            hs[i],
            ps[i],
            ts[i],
        );
        assert(s.take(n as int).drop_last() =~= s.take(i));
    }
}

/// What leaves the soils of all bands, weighted by area, enters one upper zone,
/// of which PERC percolates to one lower zone, as far as there is any. The upper
/// zone gives K0 times what stands above UZL and then K1 times the rest, the
/// lower zone K2 times its content. This runoff is spread over the routing
/// buffer by its weights, and the front of the buffer is the discharge.
pub proof fn bands_share_one_response<T: Elementary>(
    prm: HbvParams<Real<T>>,
    cfg: Layout<Real<T>>,
    st: BandedStores<Real<T>>,
    lumped_p: Real<T>,
    lumped_t: Real<T>,
    pet: Real<T>,
    hs: Seq<HbvStores<Real<T>>>,
    ps: Seq<Real<T>>,
    ts: Seq<Real<T>>,
    upper: real,
    lower: real,
)
    requires
        hbv_parameters(prm),
        st.bands.len() == cfg.bands.len(),
        st.routing.len() == buffer_len(prm.maxbas),
        forall|i: int|
            0 <= i < cfg.bands.len() ==> stands_for(hs[i], #[trigger] st.bands[i])
                && forcing_of_band(cfg, i, lumped_p, lumped_t, ps[i], ts[i]),
        ({
            let charged = st.suz.v + sum(recharge_shares(prm, cfg, hs, ps, ts, pet)).v;
            &&& upper == charged - smaller(prm.perc.v, charged)
            &&& lower == st.slz.v + smaller(prm.perc.v, charged)
        }),
    ensures
        ({
            let next = banded_next(prm, cfg, st, lumped_p, lumped_t, pet);
            let above = if upper >= prm.uzl.v {
                upper - prm.uzl.v
            } else {
                0real
            };
            let q0 = prm.k0.v * above;
            let q1 = prm.k1.v * (upper - q0);
            let q2 = prm.k2.v * lower;
            let w = triangle_weights(prm.maxbas);
            &&& next.suz.v == upper - q0 - q1
            &&& next.slz.v == lower - q2
            &&& banded_discharge(prm, cfg, st, lumped_p, lumped_t, pet).v == st.routing[0].v
                + w[0].v * (q0 + q1 + q2)
            &&& next.routing.len() == st.routing.len()
            &&& forall|i: int|
                0 <= i < st.routing.len() - 1 ==> (#[trigger] next.routing[i]).v == st.routing[i
                    + 1].v + w[i + 1].v * (q0 + q1 + q2)
            &&& next.routing[st.routing.len() - 1].v == 0real
        }),
{
    let s = recharge_shares(prm, cfg, hs, ps, ts, pet);
    lemma_total(
        prm,
        cfg,
        st.bands,
        lumped_p,
        lumped_t,
        pet,
        hs,
        ps,
        ts,
        cfg.bands.len(),
    );
    assert(s.take(cfg.bands.len() as int) =~= s);
    assert(catchment_recharge(prm, cfg, st, lumped_p, lumped_t, pet).v == sum(s).v);
    lemma_buffer_len(prm.maxbas);
}

/// The default initial state has the soil of each band at half of its capacity,
/// no snow, empty response stores, and a routing buffer of `ceil(maxbas)` empty
/// places.
pub proof fn bands_start_half_wet<T: Elementary>(
    prm: HbvParams<Real<T>>,
    cfg: Layout<Real<T>>,
)
    requires
        hbv_parameters(prm),
    ensures
        ({
            let st = banded_start(prm, cfg);
            &&& st.bands.len() == cfg.bands.len()
            &&& forall|i: int|
                0 <= i < st.bands.len() ==> {
                    &&& (#[trigger] st.bands[i]).snowpack.v == 0real
                    &&& st.bands[i].liquid_water.v == 0real
                    &&& 2real * st.bands[i].soil_moisture.v == prm.fc.v
                }
            &&& st.suz.v == 0real
            &&& st.slz.v == 0real
            &&& st.routing.len() == real_ceiling(prm.maxbas.v)
            &&& forall|i: int| 0 <= i < st.routing.len() ==> (#[trigger] st.routing[i]).v == 0real
        }),
{
    lemma_half(prm.fc.v);
    lemma_buffer_len(prm.maxbas);
}

/// A run of one step is that step.
pub proof fn banded_run_of_one_step_is_a_step<F: Arith>(
    prm: HbvParams<F>,
    cfg: Layout<F>,
    st: BandedStores<F>,
    p: F,
    t: F,
    pet: F,
)
    ensures
        banded_series(prm, cfg, st, seq![p], seq![pet], seq![t]) == seq![
            banded_discharge(prm, cfg, st, p, t, pet),
        ],
        banded_after(prm, cfg, st, seq![p], seq![pet], seq![t], 1) == banded_next(
            prm,
            cfg,
            st,
            p,
            t,
            pet,
        ),
{
    assert(banded_after(prm, cfg, st, seq![p], seq![pet], seq![t], 0) == st);
    assert(banded_series(prm, cfg, st, seq![p], seq![pet], seq![t]) =~= seq![
        banded_discharge(prm, cfg, st, p, t, pet),
    ]);
}

} // verus!
