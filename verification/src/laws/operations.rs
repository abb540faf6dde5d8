//! The equations in the operations of any number type, in the order in which
//! they are carried out. So they also fix what comes of numbers that are
//! undefined, infinite or rounded.
use vstd::prelude::*;
use crate::gr4j::Gr4jParams;
use crate::hbv::HbvParams;
use crate::metrics::KgeComponents;

verus! {

use crate::bands::{banded_discharge, banded_next, total_recharge, BandedStores, Layout};
use crate::gr4j::{
    gr4j_discharge, gr4j_next, gr4j_start, ordinates1, ordinates2, production, Gr4jStores,
};
use crate::hbv::{
    cover_step, hbv_discharge, hbv_next, hbv_start, response_step, soil_step, triangle_weights,
    HbvStores,
};
use crate::metrics::{
    kge_components_result, kge_of, mean_of, nse_result, observed, pbias_result, simulated,
    square_deviations, valid_pairs,
};
use crate::number::{sum, Arith};
use crate::routing::{areal_runoff, reach_coefficients, reach_step, routed, volumetric_flow};
use crate::uh::{advanced, buffer_len, spread};

/// A sum is taken from the front, one term after the other, starting at zero.
pub proof fn sums_are_taken_from_the_front<F: Arith>(s: Seq<F>, x: F)
    ensures
        sum(Seq::<F>::empty()) == F::literal(0, 1),
        sum(s.push(x)) == sum(s).plus(x),
{
    assert(s.push(x).drop_last() =~= s);
}

/// The mean is the sum divided by the number of terms.
pub proof fn means_divide_by_the_count<F: Arith>(s: Seq<F>)
    ensures
        mean_of(s) == sum(s).over(F::natural(s.len())),
{
}

/// A response that lasts no whole step, or whose steps cannot be counted, takes
/// one step; any other takes as many as it is rounded up to.
pub proof fn responses_take_a_step_at_least<F: Arith>(x: F)
    ensures
        match x.ceiling() {
            Some(n) => n >= 1 ==> buffer_len(x) == n,
            None => buffer_len(x) == 1,
        },
        x.ceiling() == Some(0usize) ==> buffer_len(x) == 1,
{
}

/// A pulse is spread over a buffer ordinate by ordinate, as far as both go, and a
/// buffer moves on by one place, with nothing entering at its end.
pub proof fn buffers_are_charged_and_move_on<F: Arith>(
    weights: Seq<F>,
    buffer: Seq<F>,
    pulse: F,
    i: int,
)
    requires
        0 <= i < buffer.len(),
    ensures
        spread(weights, buffer, pulse).len() == buffer.len(),
        i < weights.len() ==> spread(weights, buffer, pulse)[i] == buffer[i].plus(
            weights[i].times(pulse),
        ),
        i >= weights.len() ==> spread(weights, buffer, pulse)[i] == buffer[i],
        advanced(buffer).len() == buffer.len(),
        i + 1 < buffer.len() ==> advanced(buffer)[i] == buffer[i + 1],
        advanced(buffer).last() == F::literal(0, 1),
{
}

/// The production store in operations: net rainfall or net demand, filling or
/// drawing, percolation.
pub proof fn production_in_operations<F: Arith>(
    prm: Gr4jParams<F>,
    st: Gr4jStores<F>,
    p: F,
    pet: F,
)
    ensures
        ({
            let (zero, one) = (F::literal(0, 1), F::literal(1, 1));
            let wet = pet.within(p);
            let pn = if wet { p.minus(pet) } else { zero };
            let en = if wet { zero } else { pet.minus(p) };
            let sr = st.s.over(prm.x1);
            let ps = if zero.below(pn) {
                let w = pn.over(prm.x1).hyp_tan();
                prm.x1.times(one.minus(sr.times(sr))).times(w).over(one.plus(sr.times(w)))
            } else {
                zero
            };
            let es = if zero.below(en) {
                let w = en.over(prm.x1).hyp_tan();
                st.s.times(F::literal(2, 1).minus(sr)).times(w).over(
                    one.plus(one.minus(sr).times(w)),
                )
            } else {
                zero
            };
            let level = st.s.plus(ps).minus(es);
            let c = level.over(F::literal(9, 4).times(prm.x1));
            let perc = level.times(
                one.minus(one.plus(c.int_raised(4)).raised(F::literal(-1, 4))),
            );
            let prod = production(prm.x1, st.s, p, pet);
            &&& gr4j_next(prm, st, p, pet).s == level.minus(perc)
            &&& prod.perc.plus(prod.pn.minus(prod.ps)) == perc.plus(pn.minus(ps))
        }),
{
}

/// Routing in operations: the effective rainfall `pr` is split, delayed, exchanged
/// with groundwater and released.
pub proof fn gr4j_routing_in_operations<F: Arith>(
    prm: Gr4jParams<F>,
    st: Gr4jStores<F>,
    p: F,
    pet: F,
    pr: F,
)
    requires
        ({
            let prod = production(prm.x1, st.s, p, pet);
            pr == prod.perc.plus(prod.pn.minus(prod.ps))
        }),
        st.uh1.len() > 0,
        st.uh2.len() > 0,
    ensures
        ({
            let (zero, one) = (F::literal(0, 1), F::literal(1, 1));
            let pr9 = F::literal(9, 10).times(pr);
            let slow = spread(ordinates1(prm.x4), st.uh1, pr9);
            let fast = spread(ordinates2(prm.x4), st.uh2, pr.minus(pr9));
            let f = prm.x2.times(st.r.over(prm.x3).raised(F::literal(7, 2)));
            let filled = st.r.plus(slow[0]).plus(f).greater(zero);
            let c = filled.over(prm.x3);
            let qr = filled.times(
                one.minus(one.plus(c.int_raised(4)).raised(F::literal(-1, 4))),
            );
            let next = gr4j_next(prm, st, p, pet);
            &&& next.uh1 == advanced(slow)
            &&& next.uh2 == advanced(fast)
            &&& next.r == filled.minus(qr)
            &&& gr4j_discharge(prm, st, p, pet) == qr.plus(fast[0].plus(f).greater(zero))
        }),
{
}

/// The snow routine in operations.
pub proof fn snow_in_operations<F: Arith>(
    prm: HbvParams<F>,
    st: HbvStores<F>,
    p: F,
    t: F,
    pet: F,
)
    ensures
        ({
            let refrozen = prm.cfr.times(prm.cfmax).times(prm.tt.minus(t)).lesser(
                st.liquid_water,
            );
            let melted = prm.cfmax.times(t.minus(prm.tt)).lesser(st.snowpack);
            let cold = t.below(prm.tt);
            let pack = if cold {
                st.snowpack.plus(p.times(prm.sfcf)).plus(refrozen)
            } else {
                st.snowpack.minus(melted)
            };
            let held = if cold {
                st.liquid_water.minus(refrozen)
            } else {
                st.liquid_water.plus(melted).plus(p)
            };
            let release = held.minus(prm.cwh.times(pack)).greater(F::literal(0, 1));
            let next = hbv_next(prm, st, p, Some(t), pet);
            &&& next.snowpack == pack
            &&& next.liquid_water == held.minus(release)
            &&& cover_step(prm, st.snowpack, st.liquid_water, p, Some(t)).release == release
            &&& cover_step(prm, st.snowpack, st.liquid_water, p, None).release == p
        }),
{
}

/// Soil, response and routing in operations, with `inflow` the water that reaches
/// the soil.
pub proof fn ground_in_operations<F: Arith>(
    prm: HbvParams<F>,
    st: HbvStores<F>,
    p: F,
    temp: Option<F>,
    pet: F,
    inflow: F,
)
    requires
        inflow == cover_step(prm, st.snowpack, st.liquid_water, p, temp).release,
    ensures
        ({
            let (zero, one) = (F::literal(0, 1), F::literal(1, 1));
            let bulk = inflow.times(
                st.soil_moisture.over(prm.fc).lesser(one).raised(prm.beta),
            );
            let filled = st.soil_moisture.plus(inflow).minus(bulk);
            let overflow = filled.minus(prm.fc).greater(zero);
            let capped = filled.minus(overflow);
            let aet = pet.times(capped.over(prm.fc.times(prm.lp)).lesser(one)).lesser(capped);
            let charged = st.suz.plus(bulk.plus(overflow));
            let perc = prm.perc.lesser(charged);
            let upper = charged.minus(perc);
            let lower = st.slz.plus(perc);
            let q0 = prm.k0.times(upper.minus(prm.uzl).greater(zero));
            let q1 = prm.k1.times(upper.minus(q0));
            let q2 = prm.k2.times(lower);
            let held = spread(
                triangle_weights(prm.maxbas),
                st.routing,
                q0.plus(q1).plus(q2),
            );
            let next = hbv_next(prm, st, p, temp, pet);
            &&& next.soil_moisture == capped.minus(aet)
            &&& next.suz == upper.minus(q0).minus(q1)
            &&& next.slz == lower.minus(q2)
            &&& next.routing == advanced(held)
            &&& hbv_discharge(prm, st, p, temp, pet) == held[0]
        }),
{
}

/// The forcing of a band in operations, and its recharge by area.
pub proof fn bands_in_operations<F: Arith>(
    prm: HbvParams<F>,
    cfg: Layout<F>,
    st: BandedStores<F>,
    p: F,
    t: F,
    pet: F,
    n: nat,
)
    requires
        0 < n <= cfg.bands.len(),
    ensures
        ({
            let i = n - 1;
            let up = cfg.bands[i].elevation.minus(cfg.reference_elevation).times(
                F::literal(1, 100),
            );
            let b = st.bands[i];
            let tb = t.minus(cfg.tcalt.times(up));
            let pb = p.times(F::literal(1, 1).plus(cfg.pcalt.times(up))).greater(
                F::literal(0, 1),
            );
            let snow = cover_step(prm, b.snowpack, b.liquid_water, pb, Some(tb));
            let soil = soil_step(prm, b.soil_moisture, snow.release, pet);
            &&& total_recharge(prm, cfg, st.bands, p, t, pet, 0) == F::literal(0, 1)
            &&& total_recharge(prm, cfg, st.bands, p, t, pet, n) == total_recharge(
                prm,
                cfg,
                st.bands,
                p,
                t,
                pet,
                i as nat,
            ).plus(cfg.bands[i].area_fraction.times(soil.recharge))
            &&& i < st.bands.len() ==> {
                let next = banded_next(prm, cfg, st, p, t, pet).bands[i];
                &&& next.snowpack == snow.snowpack
                &&& next.liquid_water == snow.liquid_water
                &&& next.soil_moisture == soil.soil_moisture
            }
        }),
{
}

/// States beyond the layout stay as they are, and the response takes the recharge
/// of the bands that have both a layout and a state.
pub proof fn bands_without_a_layout_stay<F: Arith>(
    prm: HbvParams<F>,
    cfg: Layout<F>,
    st: BandedStores<F>,
    p: F,
    t: F,
    pet: F,
    n: nat,
)
    requires
        n <= cfg.bands.len(),
        n <= st.bands.len(),
        n == cfg.bands.len() || n == st.bands.len(),
    ensures
        ({
            let next = banded_next(prm, cfg, st, p, t, pet);
            let response = response_step(
                prm,
                st.suz,
                st.slz,
                total_recharge(prm, cfg, st.bands, p, t, pet, n),
            );
            let held = spread(triangle_weights(prm.maxbas), st.routing, response.runoff);
            &&& next.bands.len() == st.bands.len()
            &&& forall|i: int|
                cfg.bands.len() <= i < st.bands.len() ==> #[trigger] next.bands[i] == st.bands[i]
            &&& next.suz == response.suz
            &&& next.slz == response.slz
            &&& next.routing == advanced(held)
            &&& banded_discharge(prm, cfg, st, p, t, pet) == held[0]
        }),
{
}

/// The routing coefficients and a routing step in operations.
pub proof fn reaches_in_operations<F: Arith>(k: F, x: F, dt: F, now: F, before: F, out: F)
    ensures
        ({
            let kx = k.times(x);
            let h = F::literal(1, 2).times(dt);
            let d = k.minus(kx).plus(h);
            let c = (
                h.minus(kx).over(d),
                h.plus(kx).over(d),
                k.minus(kx).minus(h).over(d),
            );
            &&& reach_coefficients(k, x, dt) == c
            &&& reach_step(c, now, before, out) == c.0.times(now).plus(c.1.times(before)).plus(
                c.2.times(out),
            )
        }),
{
}

/// A routed series starts with the first inflow, and each later outflow is a
/// routing step from the one before.
pub proof fn routed_series_step_by_step<F: Arith>(c: (F, F, F), inflow: Seq<F>, now: F)
    ensures
        routed(c, Seq::<F>::empty()) == Seq::<F>::empty(),
        routed(c, seq![now]) == seq![now],
        inflow.len() > 0 ==> routed(c, inflow.push(now)) == routed(c, inflow).push(
            reach_step(c, now, inflow.last(), routed(c, inflow).last()),
        ),
{
    assert(inflow.push(now).drop_last() =~= inflow);
    assert(routed(c, seq![now]) =~= seq![now]);
}

/// Unit conversions in operations.
pub proof fn units_in_operations<F: Arith>(q: F, area: F)
    ensures
        volumetric_flow(q, area) == q.times(area).times(F::literal(1000, 1)).over(
            F::literal(86400, 1),
        ),
        areal_runoff(q, area) == q.times(F::literal(86400, 1)).over(
            area.times(F::literal(1000, 1)),
        ),
{
}

/// The initial states in operations.
pub proof fn initial_states_in_operations<F: Arith>(g: Gr4jParams<F>, h: HbvParams<F>)
    ensures
        gr4j_start(g).s == F::literal(3, 10).times(g.x1),
        gr4j_start(g).r == F::literal(1, 2).times(g.x3),
        gr4j_start(g).uh1.len() == ordinates1(g.x4).len(),
        gr4j_start(g).uh2.len() == ordinates2(g.x4).len(),
        hbv_start(h).soil_moisture == F::literal(1, 2).times(h.fc),
        hbv_start(h).routing.len() == triangle_weights(h.maxbas).len(),
{
}

/// The metrics in operations, over the pairs in which both values are finite.
pub proof fn metrics_in_operations<F: Arith>(obs: Seq<F>, sim: Seq<F>, c: KgeComponents<F>)
    requires
        obs.len() == sim.len(),
        valid_pairs(obs, sim).len() >= 2,
    ensures
        ({
            let pairs = valid_pairs(obs, sim);
            let (zero, one) = (F::literal(0, 1), F::literal(1, 1));
            let (n, count) = (pairs.len(), F::natural(pairs.len()));
            let o = Seq::new(n, |i: int| pairs[i].0);
            let s = Seq::new(n, |i: int| pairs[i].1);
            let (om, sm) = (sum(o).over(count), sum(s).over(count));
            let vo = sum(Seq::new(n, |i: int| pairs[i].0.minus(om).int_raised(2)));
            let vs = sum(Seq::new(n, |i: int| pairs[i].1.minus(sm).int_raised(2)));
            let se = sum(Seq::new(n, |i: int| pairs[i].1.minus(pairs[i].0).int_raised(2)));
            let cov = sum(
                Seq::new(n, |i: int| pairs[i].0.minus(om).times(pairs[i].1.minus(sm))),
            );
            let excess = sum(Seq::new(n, |i: int| pairs[i].1.minus(pairs[i].0)));
            &&& match nse_result(obs, sim) {
                Ok(v) => !vo.same(zero) && v == one.minus(se.over(vo)),
                Err(_) => vo.same(zero),
            }
            &&& match pbias_result(obs, sim) {
                Ok(v) => !sum(o).same(zero) && v == F::literal(100, 1).times(excess).over(sum(o)),
                Err(_) => sum(o).same(zero),
            }
            &&& match kge_components_result(obs, sim) {
                Ok(k) => {
                    &&& !vo.same(zero) && !om.same(zero)
                    &&& k.r == cov.over(vo.root().times(vs.root()))
                    &&& k.alpha == vs.root().over(vo.root())
                    &&& k.beta == sm.over(om)
                },
                Err(_) => vo.same(zero) || om.same(zero),
            }
            &&& kge_of(c) == one.minus(
                c.r.minus(one).int_raised(2).plus(c.alpha.minus(one).int_raised(2)).plus(
                    c.beta.minus(one).int_raised(2),
                ).root(),
            )
        }),
{
    let pairs = valid_pairs(obs, sim);
    let n = pairs.len();
    let (o, s) = (observed(pairs), simulated(pairs));
    assert(o =~= Seq::new(n, |i: int| pairs[i].0));
    assert(s =~= Seq::new(n, |i: int| pairs[i].1));
    let (om, sm) = (mean_of(o), mean_of(s));
    assert(square_deviations(o, om) =~= Seq::new(
        n,
        |i: int| pairs[i].0.minus(om).int_raised(2),
    ));
    assert(square_deviations(s, sm) =~= Seq::new(
        n,
        |i: int| pairs[i].1.minus(sm).int_raised(2),
    ));
}

} // verus!
