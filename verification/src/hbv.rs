//! HBV-light daily rainfall-runoff model.
//!
//! Reference: Seibert, J., Vis, M.J.P. (2012). *Teaching hydrological modeling
//! with a user-friendly catchment-runoff-model software package*. HESS 16,
//! 3315-3325 (standard single-zone version of Bergstroem's HBV).
//!
//! Structure: degree-day snow routine, soil moisture accounting, two-box
//! response routine (upper zone with threshold outflow, percolation to a
//! lower zone), triangular MAXBAS routing.
//!
//! Two deliberate deviations from HBV-light:
//! - soil recharge is computed in bulk per time step (HBV-light integrates in
//!   1 mm increments); differences are small at daily resolution.
//! - upper-zone outflows are drawn sequentially (Q0 then Q1), which keeps the
//!   store non-negative and the water balance exact for any K0+K1 <= 2.
//!
//! Temperature forcing is optional: without it the snow routine is bypassed
//! and all precipitation is treated as rain (adequate for pluvial catchments).
use vstd::prelude::*;
use vstd::string::*;
use crate::error::{reject, Error};
use crate::number::{total, Scalar};
use crate::text::{around, decimal};
use crate::uh::{shift_front, spread_pulse, steps_of, zeros};

verus! {

use crate::error::{invalid, mismatch, Fault};
use crate::number::{half, one, sum, two, zero, Arith};
use crate::text::decimal_text;
use crate::uh::{advanced, buffer_len, spread};

/// HBV-light parameters (standard notation).
#[derive(Debug, Clone, Copy, PartialEq)]
pub struct HbvParams<F> {
    // Snow routine (ignored when no temperature is supplied).
    /// `TT`: rain/snow threshold temperature (deg C).
    pub tt: F,
    /// `CFMAX`: degree-day melt factor (mm/deg C/day), >= 0.
    pub cfmax: F,
    /// `SFCF`: snowfall correction factor (-), > 0.
    pub sfcf: F,
    /// `CFR`: refreezing coefficient (-), in [0, 1]. HBV-light default 0.05.
    pub cfr: F,
    /// `CWH`: liquid water holding capacity of the snowpack (-), >= 0.
    /// HBV-light default 0.1.
    pub cwh: F,
    // Soil moisture routine.
    /// `FC`: maximum soil moisture storage (mm), > 0.
    pub fc: F,
    /// `LP`: fraction of FC above which AET = PET (-), in (0, 1].
    pub lp: F,
    /// `BETA`: recharge non-linearity exponent (-), > 0.
    pub beta: F,
    // Response routine.
    /// `K0`: near-surface recession coefficient (1/day), in [0, 1].
    pub k0: F,
    /// `K1`: upper-zone recession coefficient (1/day), in [0, 1].
    pub k1: F,
    /// `K2`: lower-zone recession coefficient (1/day), in [0, 1].
    pub k2: F,
    /// `UZL`: upper-zone threshold for Q0 (mm), >= 0.
    pub uzl: F,
    /// `PERC`: maximum percolation to the lower zone (mm/day), >= 0.
    pub perc: F,
    // Routing.
    /// `MAXBAS`: triangular unit-hydrograph length (days), >= 1.
    pub maxbas: F,
}

impl<F: Scalar> HbvParams<F> {
    /// HBV-light defaults for the parameters that are usually fixed.
    pub fn with_fixed_defaults(self) -> (r: Self)
        ensures
            r == (HbvParams { cfr: F::literal(1, 20), cwh: F::literal(1, 10), ..self }),
    {
        HbvParams { cfr: F::ratio(1, 20), cwh: F::ratio(1, 10), ..self }
    }
}

/// Mutable model state carried between time steps.
#[derive(Debug, Clone)]
pub struct HbvState<F> {
    /// Frozen snowpack (mm water equivalent).
    pub snowpack: F,
    /// Liquid water held in the snowpack (mm).
    pub liquid_water: F,
    /// Soil moisture (mm), in `[0, FC]`.
    pub soil_moisture: F,
    /// Upper response zone (mm).
    pub suz: F,
    /// Lower response zone (mm).
    pub slz: F,
    /// Water in transit to the outlet, by days to arrival (mm).
    pub routing: Vec<F>,
}

/// Contents of an [`HbvState`].
#[verifier::ext_equal]
pub struct HbvStores<F> {
    /// Frozen snowpack.
    pub snowpack: F,
    /// Liquid water held in the snowpack.
    pub liquid_water: F,
    /// Soil moisture.
    pub soil_moisture: F,
    /// Upper response zone.
    pub suz: F,
    /// Lower response zone.
    pub slz: F,
    /// Water in transit.
    pub routing: Seq<F>,
}

impl<F> View for HbvState<F> {
    type V = HbvStores<F>;

    open spec fn view(&self) -> HbvStores<F> {
        HbvStores {
            snowpack: self.snowpack,
            liquid_water: self.liquid_water,
            soil_moisture: self.soil_moisture,
            suz: self.suz,
            slz: self.slz,
            routing: self.routing@,
        }
    }
}

/// HBV-light model with pre-computed MAXBAS routing weights.
#[derive(Debug, Clone)]
pub struct Hbv<F> {
    params: HbvParams<F>,
    weights: Vec<F>,
}

/// Why the parameters are rejected, if they are.
pub open spec fn hbv_fault<F: Arith>(p: HbvParams<F>) -> Option<Fault> {
    let recession = "recession coefficients must be in [0, 1]"@;
    if !zero::<F>().within(p.cfmax) {
        Some(invalid("cfmax"@, "melt factor must be >= 0"@))
    } else if !zero::<F>().below(p.sfcf) {
        Some(invalid("sfcf"@, "snowfall correction must be > 0"@))
    } else if !(zero::<F>().within(p.cfr) && p.cfr.within(one())) {
        Some(invalid("cfr"@, "refreezing coefficient must be in [0, 1]"@))
    } else if !zero::<F>().within(p.cwh) {
        Some(invalid("cwh"@, "holding capacity must be >= 0"@))
    } else if !zero::<F>().below(p.fc) {
        Some(invalid("fc"@, "soil storage must be > 0 mm"@))
    } else if !(zero::<F>().below(p.lp) && p.lp.within(one())) {
        Some(invalid("lp"@, "LP must be in (0, 1]"@))
    } else if !zero::<F>().below(p.beta) {
        Some(invalid("beta"@, "BETA must be > 0"@))
    } else if !(zero::<F>().within(p.k0) && p.k0.within(one())) {
        Some(invalid("k0"@, recession))
    } else if !(zero::<F>().within(p.k1) && p.k1.within(one())) {
        Some(invalid("k1"@, recession))
    } else if !(zero::<F>().within(p.k2) && p.k2.within(one())) {
        Some(invalid("k2"@, recession))
    } else if !zero::<F>().within(p.uzl) {
        Some(invalid("uzl"@, "UZL must be >= 0 mm"@))
    } else if !zero::<F>().within(p.perc) {
        Some(invalid("perc"@, "PERC must be >= 0 mm/day"@))
    } else if !(one::<F>().within(p.maxbas) && !p.maxbas.undefined()) {
        Some(invalid("maxbas"@, "MAXBAS must be >= 1 day"@))
    } else {
        None
    }
}

/// Outcome of the snow routine.
pub struct SnowStep<F> {
    /// Frozen snowpack afterwards.
    pub snowpack: F,
    /// Liquid water in the pack afterwards.
    pub liquid_water: F,
    /// Water released to the soil.
    pub release: F,
}

/// Snow routine: precipitation falls as (corrected) snow below `TT`, where
/// liquid water refreezes, and as rain above it, where snow melts; liquid
/// water exceeding the holding capacity of the pack is released.
pub open spec fn snow_step<F: Arith>(
    prm: HbvParams<F>,
    snowpack: F,
    liquid: F,
    p: F,
    t: F,
) -> SnowStep<F> {
    let (pack, held) = if t.below(prm.tt) {
        let refreeze = prm.cfr.times(prm.cfmax).times(prm.tt.minus(t)).lesser(liquid);
        (snowpack.plus(p.times(prm.sfcf)).plus(refreeze), liquid.minus(refreeze))
    } else {
        let melt = prm.cfmax.times(t.minus(prm.tt)).lesser(snowpack);
        (snowpack.minus(melt), liquid.plus(melt).plus(p))
    };
    let release = held.minus(prm.cwh.times(pack)).greater(zero());
    SnowStep { snowpack: pack, liquid_water: held.minus(release), release }
}

/// Outcome of the soil moisture routine.
pub struct SoilStep<F> {
    /// Soil moisture afterwards.
    pub soil_moisture: F,
    /// Recharge to the response routine.
    pub recharge: F,
    /// Actual evapotranspiration.
    pub aet: F,
}

/// Soil moisture routine: bulk recharge, capacity overflow, then actual
/// evapotranspiration, limited by the moisture present.
pub open spec fn soil_step<F: Arith>(prm: HbvParams<F>, sm: F, inflow: F, pet: F) -> SoilStep<F> {
    let wetness = sm.over(prm.fc).lesser(one());
    let bulk = inflow.times(wetness.raised(prm.beta));
    let filled = sm.plus(inflow).minus(bulk);
    let overflow = filled.minus(prm.fc).greater(zero());
    let capped = filled.minus(overflow);
    let aet = pet.times(capped.over(prm.fc.times(prm.lp)).lesser(one())).lesser(capped);
    SoilStep { soil_moisture: capped.minus(aet), recharge: bulk.plus(overflow), aet }
}

/// Outcome of the response routine.
pub struct ResponseStep<F> {
    /// Upper zone afterwards.
    pub suz: F,
    /// Lower zone afterwards.
    pub slz: F,
    /// Runoff generated, before routing.
    pub runoff: F,
}

/// Response routine: percolation, then the outflows of the upper zone (Q0
/// above `UZL`, then Q1) and of the lower zone (Q2).
pub open spec fn response_step<F: Arith>(
    prm: HbvParams<F>,
    suz: F,
    slz: F,
    recharge: F,
) -> ResponseStep<F> {
    let charged = suz.plus(recharge);
    let percolation = prm.perc.lesser(charged);
    let upper = charged.minus(percolation);
    let lower = slz.plus(percolation);
    let q0 = prm.k0.times(upper.minus(prm.uzl).greater(zero()));
    let upper1 = upper.minus(q0);
    let q1 = prm.k1.times(upper1);
    let q2 = prm.k2.times(lower);
    ResponseStep { suz: upper1.minus(q1), slz: lower.minus(q2), runoff: q0.plus(q1).plus(q2) }
}

/// Cumulative triangular response: `2 t^2 / mb^2` up to `mb / 2`, then
/// `1 - 2 (mb - t)^2 / mb^2` up to `mb`, one beyond.
pub open spec fn triangle<F: Arith>(maxbas: F, t: F) -> F {
    if t.within(zero()) {
        zero()
    } else if t.plus(t).within(maxbas) {
        two::<F>().times(t).times(t).over(maxbas.times(maxbas))
    } else if t.below(maxbas) {
        one::<F>().minus(
            two::<F>().times(maxbas.minus(t)).times(maxbas.minus(t)).over(maxbas.times(maxbas)),
        )
    } else {
        one()
    }
}

/// Weight of day `j` of the triangular routing.
pub open spec fn triangle_weight<F: Arith>(maxbas: F, j: int) -> F {
    triangle(maxbas, F::natural((j + 1) as nat)).minus(triangle(maxbas, F::natural(j as nat)))
}

/// Triangular routing weights.
pub open spec fn triangle_weights<F: Arith>(maxbas: F) -> Seq<F> {
    Seq::new(buffer_len(maxbas), |j: int| triangle_weight(maxbas, j))
}

/// Water reaching the soil and the snow stores after one step; without a
/// temperature all precipitation reaches the soil and the snow stays as it is.
pub open spec fn cover_step<F: Arith>(
    prm: HbvParams<F>,
    snowpack: F,
    liquid: F,
    p: F,
    temp: Option<F>,
) -> SnowStep<F> {
    match temp {
        Some(t) => snow_step(prm, snowpack, liquid, p, t),
        None => SnowStep { snowpack, liquid_water: liquid, release: p },
    }
}

/// Buffer of the routing with `runoff` spread over it, before it advances.
pub open spec fn routing_charged<F: Arith>(prm: HbvParams<F>, routing: Seq<F>, runoff: F) -> Seq<
    F,
> {
    spread(triangle_weights(prm.maxbas), routing, runoff)
}

/// State after one time step.
pub open spec fn hbv_next<F: Arith>(
    prm: HbvParams<F>,
    st: HbvStores<F>,
    p: F,
    temp: Option<F>,
    pet: F,
) -> HbvStores<F> {
    let snow = cover_step(prm, st.snowpack, st.liquid_water, p, temp);
    let soil = soil_step(prm, st.soil_moisture, snow.release, pet);
    let response = response_step(prm, st.suz, st.slz, soil.recharge);
    HbvStores {
        snowpack: snow.snowpack,
        liquid_water: snow.liquid_water,
        soil_moisture: soil.soil_moisture,
        suz: response.suz,
        slz: response.slz,
        routing: advanced(routing_charged(prm, st.routing, response.runoff)),
    }
}

/// Discharge of one time step.
pub open spec fn hbv_discharge<F: Arith>(
    prm: HbvParams<F>,
    st: HbvStores<F>,
    p: F,
    temp: Option<F>,
    pet: F,
) -> F {
    let snow = cover_step(prm, st.snowpack, st.liquid_water, p, temp);
    let soil = soil_step(prm, st.soil_moisture, snow.release, pet);
    let response = response_step(prm, st.suz, st.slz, soil.recharge);
    routing_charged(prm, st.routing, response.runoff)[0]
}

/// Actual evapotranspiration of one time step.
pub open spec fn hbv_aet<F: Arith>(
    prm: HbvParams<F>,
    st: HbvStores<F>,
    p: F,
    temp: Option<F>,
    pet: F,
) -> F {
    let snow = cover_step(prm, st.snowpack, st.liquid_water, p, temp);
    soil_step(prm, st.soil_moisture, snow.release, pet).aet
}

/// Temperature of step `i`, where there is a temperature series.
pub open spec fn temp_at<F>(temp: Option<Seq<F>>, i: int) -> Option<F> {
    match temp {
        Some(t) => Some(t[i]),
        None => None,
    }
}

/// State after the first `n` steps of the forcing.
pub open spec fn hbv_after<F: Arith>(
    prm: HbvParams<F>,
    st: HbvStores<F>,
    precip: Seq<F>,
    pet: Seq<F>,
    temp: Option<Seq<F>>,
    n: nat,
) -> HbvStores<F>
    decreases n,
{
    if n == 0 {
        st
    } else {
        hbv_next(
            prm,
            hbv_after(prm, st, precip, pet, temp, (n - 1) as nat),
            precip[n - 1],
            temp_at(temp, n - 1),
            pet[n - 1],
        )
    }
}

/// Discharge series of the forcing, from state `st`.
pub open spec fn hbv_series<F: Arith>(
    prm: HbvParams<F>,
    st: HbvStores<F>,
    precip: Seq<F>,
    pet: Seq<F>,
    temp: Option<Seq<F>>,
) -> Seq<F> {
    Seq::new(
        precip.len(),
        |i: int|
            hbv_discharge(
                prm,
                hbv_after(prm, st, precip, pet, temp, i as nat),
                precip[i],
                temp_at(temp, i),
                pet[i],
            ),
    )
}

/// Default initial state: soil at half capacity, empty stores.
pub open spec fn hbv_start<F: Arith>(prm: HbvParams<F>) -> HbvStores<F> {
    HbvStores {
        snowpack: zero(),
        liquid_water: zero(),
        soil_moisture: half::<F>().times(prm.fc),
        suz: zero(),
        slz: zero(),
        routing: Seq::new(buffer_len(prm.maxbas), |j: int| zero()),
    }
}

/// Total water in the stores and in transit.
pub open spec fn hbv_storage<F: Arith>(st: HbvStores<F>) -> F {
    st.snowpack.plus(st.liquid_water).plus(st.soil_moisture).plus(st.suz).plus(st.slz).plus(
        sum(st.routing),
    )
}

/// The text of a series of the wrong length.
pub open spec fn steps_text(expected: nat, got: nat) -> Seq<char> {
    "expected "@ + decimal_text(expected) + " steps, got "@ + decimal_text(got)
}

/// Writes the reason for a series of the wrong length.
pub(crate) fn steps_reason(expected: usize, got: usize) -> (r: String)
    ensures
        r@ == steps_text(expected as nat, got as nat),
{
    let mut r = around("expected ", expected, " steps, got ");
    r.append(decimal(got).as_str());
    r
}

/// Why the forcing is rejected, if it is.
pub open spec fn hbv_forcing_fault(precip: nat, pet: nat, temp: Option<nat>) -> Option<Fault> {
    if precip != pet {
        Some(mismatch(precip, pet))
    } else if temp is Some && temp->0 != precip {
        Some(invalid("temp"@, steps_text(precip, temp->0)))
    } else {
        None
    }
}

/// Checks every parameter against its range.
pub(crate) fn check_params<F: Scalar>(params: &HbvParams<F>) -> (r: Result<(), Error>)
    ensures
        match hbv_fault(*params) {
            Some(fault) => r is Err && r->Err_0@ == fault,
            None => r is Ok,
        },
{
    let zero = F::ratio(0, 1);
    let one = F::ratio(1, 1);
    if !zero.at_most(params.cfmax) {
        return Err(reject("cfmax", "melt factor must be >= 0"));
    }
    if !zero.less_than(params.sfcf) {
        return Err(reject("sfcf", "snowfall correction must be > 0"));
    }
    if !(zero.at_most(params.cfr) && params.cfr.at_most(one)) {
        return Err(reject("cfr", "refreezing coefficient must be in [0, 1]"));
    }
    if !zero.at_most(params.cwh) {
        return Err(reject("cwh", "holding capacity must be >= 0"));
    }
    if !zero.less_than(params.fc) {
        return Err(reject("fc", "soil storage must be > 0 mm"));
    }
    if !(zero.less_than(params.lp) && params.lp.at_most(one)) {
        return Err(reject("lp", "LP must be in (0, 1]"));
    }
    if !zero.less_than(params.beta) {
        return Err(reject("beta", "BETA must be > 0"));
    }
    if !(zero.at_most(params.k0) && params.k0.at_most(one)) {
        return Err(reject("k0", "recession coefficients must be in [0, 1]"));
    }
    if !(zero.at_most(params.k1) && params.k1.at_most(one)) {
        return Err(reject("k1", "recession coefficients must be in [0, 1]"));
    }
    if !(zero.at_most(params.k2) && params.k2.at_most(one)) {
        return Err(reject("k2", "recession coefficients must be in [0, 1]"));
    }
    if !zero.at_most(params.uzl) {
        return Err(reject("uzl", "UZL must be >= 0 mm"));
    }
    if !zero.at_most(params.perc) {
        return Err(reject("perc", "PERC must be >= 0 mm/day"));
    }
    if !(one.at_most(params.maxbas) && !params.maxbas.is_nan()) {
        return Err(reject("maxbas", "MAXBAS must be >= 1 day"));
    }
    Ok(())
}

/// Runs the snow routine on one snowpack.
pub(crate) fn run_snow<F: Scalar>(
    prm: &HbvParams<F>,
    snowpack: F,
    liquid: F,
    p: F,
    t: F,
) -> (r: SnowStep<F>)
    ensures
        r == snow_step(*prm, snowpack, liquid, p, t),
{
    let (pack, held) = if t.less_than(prm.tt) {
        let refreeze = prm.cfr.mul(prm.cfmax).mul(prm.tt.sub(t)).min(liquid);
        (snowpack.add(p.mul(prm.sfcf)).add(refreeze), liquid.sub(refreeze))
    } else {
        // Rain and meltwater pass through the snowpack's liquid storage; with
        // no snowpack the capacity is zero and all of it is released at once.
        let melt = prm.cfmax.mul(t.sub(prm.tt)).min(snowpack);
        (snowpack.sub(melt), liquid.add(melt).add(p))
    };
    let release = held.sub(prm.cwh.mul(pack)).max(F::ratio(0, 1));
    SnowStep { snowpack: pack, liquid_water: held.sub(release), release }
}

/// Runs the soil moisture routine on one soil store.
pub(crate) fn run_soil<F: Scalar>(prm: &HbvParams<F>, sm: F, inflow: F, pet: F) -> (r: SoilStep<F>)
    ensures
        r == soil_step(*prm, sm, inflow, pet),
{
    let wetness = sm.div(prm.fc).min(F::ratio(1, 1));
    let bulk = inflow.mul(wetness.powf(prm.beta));
    let filled = sm.add(inflow).sub(bulk);
    let overflow = filled.sub(prm.fc).max(F::ratio(0, 1));
    let capped = filled.sub(overflow);
    let aet = pet.mul(capped.div(prm.fc.mul(prm.lp)).min(F::ratio(1, 1))).min(capped);
    SoilStep { soil_moisture: capped.sub(aet), recharge: bulk.add(overflow), aet }
}

/// Runs the response routine.
pub(crate) fn run_response<F: Scalar>(
    prm: &HbvParams<F>,
    suz: F,
    slz: F,
    recharge: F,
) -> (r: ResponseStep<F>)
    ensures
        r == response_step(*prm, suz, slz, recharge),
{
    let charged = suz.add(recharge);
    let percolation = prm.perc.min(charged);
    let upper = charged.sub(percolation);
    let lower = slz.add(percolation);
    let q0 = prm.k0.mul(upper.sub(prm.uzl).max(F::ratio(0, 1)));
    let upper1 = upper.sub(q0);
    let q1 = prm.k1.mul(upper1);
    let q2 = prm.k2.mul(lower);
    ResponseStep { suz: upper1.sub(q1), slz: lower.sub(q2), runoff: q0.add(q1).add(q2) }
}

/// Evaluates the cumulative triangular response.
fn triangle_at<F: Scalar>(maxbas: F, t: F) -> (r: F)
    ensures
        r == triangle(maxbas, t),
{
    if t.at_most(F::ratio(0, 1)) {
        F::ratio(0, 1)
    } else if t.add(t).at_most(maxbas) {
        F::ratio(2, 1).mul(t).mul(t).div(maxbas.mul(maxbas))
    } else if t.less_than(maxbas) {
        F::ratio(1, 1).sub(
            F::ratio(2, 1).mul(maxbas.sub(t)).mul(maxbas.sub(t)).div(maxbas.mul(maxbas)),
        )
    } else {
        F::ratio(1, 1)
    }
}

/// Triangular MAXBAS weights, as differences of the cumulative response.
pub fn maxbas_weights<F: Scalar>(maxbas: F) -> (r: Vec<F>)
    ensures
        r@ == triangle_weights(maxbas),
        r@.len() >= 1,
{
    let n = steps_of(maxbas);
    let mut r: Vec<F> = Vec::new();
    let mut j: usize = 0;
    while j < n
        invariant
            j <= n,
            n == buffer_len(maxbas),
            r@.len() == j,
            forall|i: int| 0 <= i < j ==> #[trigger] r@[i] == triangle_weight(maxbas, i),
        decreases n - j,
    {
        let next = triangle_at(maxbas, F::from_usize(j + 1));
        let this = triangle_at(maxbas, F::from_usize(j));
        r.push(next.sub(this));
        j = j + 1;
    }
    assert(r@ =~= triangle_weights(maxbas));
    r
}

impl<F> Hbv<F> {
    /// The parameters of the model.
    pub closed spec fn spec_params(self) -> HbvParams<F> {
        self.params
    }
}

impl<F: Arith> Hbv<F> {
    /// A model has sound parameters and the routing weights they call for.
    pub closed spec fn wf(self) -> bool {
        &&& hbv_fault(self.params) is None
        &&& self.weights@ == triangle_weights(self.params.maxbas)
    }
}

impl<F: Scalar> Hbv<F> {
    /// Builds the model, validating parameters and pre-computing the
    /// triangular routing weights.
    pub fn new(params: HbvParams<F>) -> (r: Result<Self, Error>)
        ensures
            match hbv_fault(params) {
                Some(fault) => r is Err && r->Err_0@ == fault,
                None => r is Ok && r->Ok_0.wf() && r->Ok_0.spec_params() == params,
            },
    {
        match check_params(&params) {
            Err(e) => Err(e),
            Ok(_) => {
                let weights = maxbas_weights(params.maxbas);
                Ok(Hbv { params, weights })
            },
        }
    }

    /// The parameters of the model.
    pub fn params(&self) -> (r: &HbvParams<F>)
        ensures
            *r == self.spec_params(),
    {
        &self.params
    }

    /// Default initial state: soil at half capacity, empty stores.
    /// Use at least one year of warm-up so the lower zone equilibrates.
    pub fn initial_state(&self) -> (r: HbvState<F>)
        requires
            self.wf(),
        ensures
            r@ == hbv_start(self.spec_params()),
            r@.routing.len() > 0,
    {
        let r = HbvState {
            snowpack: F::ratio(0, 1),
            liquid_water: F::ratio(0, 1),
            soil_moisture: F::ratio(1, 2).mul(self.params.fc),
            suz: F::ratio(0, 1),
            slz: F::ratio(0, 1),
            routing: zeros(self.weights.len()),
        };
        assert(r@.routing =~= hbv_start(self.spec_params()).routing);
        r
    }

    /// Advances one time step with precipitation `p` (mm), optional mean air
    /// temperature `temp` (deg C) and potential evapotranspiration `pet` (mm),
    /// returning simulated discharge (mm).
    pub fn step(&self, state: &mut HbvState<F>, p: F, temp: Option<F>, pet: F) -> (q: F)
        requires
            self.wf(),
            old(state)@.routing.len() > 0,
        ensures
            final(state)@ == hbv_next(self.spec_params(), old(state)@, p, temp, pet),
            final(state)@.routing.len() == old(state)@.routing.len(),
            q == hbv_discharge(self.spec_params(), old(state)@, p, temp, pet),
    {
        let to_soil = match temp {
            Some(t) => {
                let snow = run_snow(&self.params, state.snowpack, state.liquid_water, p, t);
                state.snowpack = snow.snowpack;
                state.liquid_water = snow.liquid_water;
                snow.release
            },
            None => p,
        };
        let soil = run_soil(&self.params, state.soil_moisture, to_soil, pet);
        state.soil_moisture = soil.soil_moisture;
        let response = run_response(&self.params, state.suz, state.slz, soil.recharge);
        state.suz = response.suz;
        state.slz = response.slz;
        spread_pulse(&self.weights, &mut state.routing, response.runoff);
        shift_front(&mut state.routing)
    }

    /// Runs the series from `state`, which is carried along to the end of the
    /// series. `temp` may be `None` for pluvial catchments (snow routine
    /// bypassed). A rejected forcing leaves the state as it was.
    pub fn run_from(
        &self,
        state: &mut HbvState<F>,
        precip: &[F],
        pet: &[F],
        temp: Option<&[F]>,
    ) -> (r: Result<Vec<F>, Error>)
        requires
            self.wf(),
            old(state)@.routing.len() > 0,
        ensures
            ({
                let prm = self.spec_params();
                let temps = temp_series(temp);
                match hbv_forcing_fault(precip@.len(), pet@.len(), series_len(temps)) {
                    Some(fault) => r is Err && r->Err_0@ == fault && final(state)@ == old(state)@,
                    None => {
                        &&& r is Ok
                        &&& r->Ok_0@ == hbv_series(prm, old(state)@, precip@, pet@, temps)
                        &&& final(state)@ == hbv_after(
                            prm,
                            old(state)@,
                            precip@,
                            pet@,
                            temps,
                            precip@.len(),
                        )
                    },
                }
            }),
            final(state)@.routing.len() == old(state)@.routing.len(),
    {
        if precip.len() != pet.len() {
            return Err(Error::ForcingLengthMismatch { precip: precip.len(), pet: pet.len() });
        }
        if let Some(t) = temp {
            if t.len() != precip.len() {
                let reason = steps_reason(precip.len(), t.len());
                return Err(reject("temp", reason.as_str()));
            }
        }
        let ghost prm = self.spec_params();
        let ghost start = old(state)@;
        let ghost temps = temp_series(temp);
        let mut q: Vec<F> = Vec::new();
        let mut i: usize = 0;
        while i < precip.len()
            invariant
                self.wf(),
                prm == self.spec_params(),
                temps == temp_series(temp),
                i <= precip@.len(),
                precip@.len() == pet@.len(),
                temp is Some ==> temp->0@.len() == precip@.len(),
                state@.routing.len() == start.routing.len(),
                start.routing.len() > 0,
                state@ == hbv_after(prm, start, precip@, pet@, temps, i as nat),
                q@.len() == i,
                forall|j: int|
                    0 <= j < i ==> #[trigger] q@[j] == hbv_series(
                        prm,
                        start,
                        precip@,
                        pet@,
                        temps,
                    )[j],
            decreases precip@.len() - i,
        {
            let t = match temp {
                Some(t) => Some(t[i]),
                None => None,
            };
            let v = self.step(state, precip[i], t, pet[i]);
            q.push(v);
            i = i + 1;
        }
        assert(q@ =~= hbv_series(prm, start, precip@, pet@, temps));
        Ok(q)
    }

    /// Runs the full series from the default initial state. `temp` may be
    /// `None` for pluvial catchments (snow routine bypassed).
    pub fn run(&self, precip: &[F], pet: &[F], temp: Option<&[F]>) -> (r: Result<Vec<F>, Error>)
        requires
            self.wf(),
        ensures
            match hbv_forcing_fault(precip@.len(), pet@.len(), series_len(temp_series(temp))) {
                Some(fault) => r is Err && r->Err_0@ == fault,
                None => {
                    &&& r is Ok
                    &&& r->Ok_0@ == hbv_series(
                        self.spec_params(),
                        hbv_start(self.spec_params()),
                        precip@,
                        pet@,
                        temp_series(temp),
                    )
                },
            },
    {
        let mut state = self.initial_state();
        self.run_from(&mut state, precip, pet, temp)
    }

    /// Total water stored in the model (stores + water in transit), for
    /// mass-balance checks.
    pub fn storage(&self, state: &HbvState<F>) -> (r: F)
        ensures
            r == hbv_storage(state@),
    {
        let routed = total(state.routing.as_slice());
        state.snowpack.add(state.liquid_water).add(state.soil_moisture).add(state.suz).add(
            state.slz,
        ).add(routed)
    }
}

/// The contents of an optional series.
pub open spec fn temp_series<F>(temp: Option<&[F]>) -> Option<Seq<F>> {
    match temp {
        Some(t) => Some(t@),
        None => None,
    }
}

/// The length of an optional series.
pub open spec fn series_len<F>(s: Option<Seq<F>>) -> Option<nat> {
    match s {
        Some(t) => Some(t.len()),
        None => None,
    }
}

} // verus!
