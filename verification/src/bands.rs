//! Semi-distributed HBV.
//!
//! The snow and soil routines run per elevation band (lapsed temperature,
//! precipitation gradient) and the area-weighted recharge feeds a single
//! shared response and routing, as in HBV-light's elevation zones.
use vstd::prelude::*;
use vstd::string::*;
use crate::error::{reject, Error};
use crate::hbv::{check_params, maxbas_weights, run_response, run_snow, run_soil, steps_reason};
use crate::hbv::HbvParams;
use crate::number::Scalar;
use crate::text::around;
use crate::uh::{shift_front, spread_pulse, zeros};

verus! {

use crate::error::{invalid, Fault};
use crate::hbv::{
    hbv_fault,
    hbv_forcing_fault,
    response_step,
    routing_charged,
    snow_step,
    soil_step,
    triangle_weights,
};
use crate::number::{half, one, sum, zero, Arith};
use crate::text::decimal_text;
use crate::uh::{advanced, buffer_len};

/// One elevation band: mean elevation (m a.s.l.) and its fraction of the
/// catchment area.
#[derive(Debug, Clone, Copy, PartialEq)]
pub struct ElevationBand<F> {
    /// Mean elevation.
    pub elevation: F,
    /// Fraction of the catchment area.
    pub area_fraction: F,
}

/// Semi-distributed configuration: elevation bands plus the lapse/gradient
/// rates used to extrapolate the lumped forcing to each band.
#[derive(Debug, Clone, PartialEq)]
pub struct ElevationBands<F> {
    /// The bands.
    pub bands: Vec<ElevationBand<F>>,
    /// Elevation the forcing series represents (e.g. catchment mean for a
    /// gridded product), m a.s.l.
    pub reference_elevation: F,
    /// Temperature lapse rate (deg C per 100 m, positive = cooler with height).
    /// HBV-light default (TCALT): 0.6.
    pub tcalt: F,
    /// Precipitation gradient (fraction per 100 m). HBV-light default
    /// (PCALT): 0.10.
    pub pcalt: F,
}

/// Contents of [`ElevationBands`].
#[verifier::ext_equal]
pub struct Layout<F> {
    /// The bands.
    pub bands: Seq<ElevationBand<F>>,
    /// Elevation the forcing represents.
    pub reference_elevation: F,
    /// Temperature lapse rate.
    pub tcalt: F,
    /// Precipitation gradient.
    pub pcalt: F,
}

impl<F> View for ElevationBands<F> {
    type V = Layout<F>;

    open spec fn view(&self) -> Layout<F> {
        Layout {
            bands: self.bands@,
            reference_elevation: self.reference_elevation,
            tcalt: self.tcalt,
            pcalt: self.pcalt,
        }
    }
}

/// A layout with the HBV-light default lapse rates.
pub open spec fn default_layout<F: Arith>(bands: Seq<ElevationBand<F>>, reference: F) -> Layout<F> {
    Layout {
        bands,
        reference_elevation: reference,
        tcalt: F::literal(6, 10),
        pcalt: F::literal(1, 10),
    }
}

/// Whether knot `i` of a curve is followed by a smaller one, or is not finite.
pub open spec fn knot_out_of_order<F: Arith>(curve: Seq<(F, F)>, i: int) -> bool {
    ||| curve[i + 1].0.below(curve[i].0)
    ||| curve[i + 1].1.below(curve[i].1)
    ||| !curve[i].0.finite()
    ||| !curve[i].1.finite()
}

/// Why no bands can be made of a curve, if they cannot.
pub open spec fn curve_fault<F: Arith>(curve: Seq<(F, F)>, n: nat) -> Option<Fault> {
    if n == 0 {
        Some(invalid("n"@, "need at least one band"@))
    } else if curve.len() < 2 {
        Some(invalid("curve"@, "hypsometric curve needs at least two knots"@))
    } else if exists|i: int| 0 <= i < curve.len() - 1 && #[trigger] knot_out_of_order(curve, i) {
        Some(
            invalid(
                "curve"@,
                "knots must be sorted with non-decreasing fraction and elevation"@,
            ),
        )
    } else {
        None
    }
}

/// Linear interpolation between two knots.
pub open spec fn on_segment<F: Arith>(from: (F, F), to: (F, F), at: F) -> F {
    if to.0.same(from.0) {
        from.1
    } else {
        from.1.plus(at.minus(from.0).over(to.0.minus(from.0)).times(to.1.minus(from.1)))
    }
}

/// Interpolation on the first segment from knot `i` on that reaches `at`.
pub open spec fn from_knot<F: Arith>(curve: Seq<(F, F)>, at: F, i: int) -> F
    decreases curve.len() - i,
{
    if i + 1 >= curve.len() {
        curve.last().1
    } else if at.within(curve[i + 1].0) {
        on_segment(curve[i], curve[i + 1], at)
    } else {
        from_knot(curve, at, i + 1)
    }
}

/// Linear interpolation of a sorted curve at `at`, clamped to the curve's
/// endpoints outside its range.
pub open spec fn interpolated<F: Arith>(curve: Seq<(F, F)>, at: F) -> F {
    if at.within(curve[0].0) {
        curve[0].1
    } else if curve.last().0.within(at) {
        curve.last().1
    } else {
        from_knot(curve, at, 0)
    }
}

/// Area fraction below the middle of band `i` of `n` equal bands.
pub open spec fn band_midpoint<F: Arith>(n: nat, i: int) -> F {
    F::natural(i as nat).plus(half()).over(F::natural(n))
}

/// Band `i` of `n` equal-area bands on a hypsometric curve.
pub open spec fn equal_area_band<F: Arith>(curve: Seq<(F, F)>, n: nat, i: int) -> ElevationBand<F> {
    ElevationBand {
        elevation: interpolated(curve, band_midpoint(n, i)),
        area_fraction: one::<F>().over(F::natural(n)),
    }
}

/// `n` equal-area bands on a hypsometric curve.
pub open spec fn equal_area_bands<F: Arith>(curve: Seq<(F, F)>, n: nat) -> Seq<ElevationBand<F>> {
    Seq::new(n, |i: int| equal_area_band(curve, n, i))
}

/// The hypsometric curve through three elevation quantiles.
pub open spec fn quantile_curve<F: Arith>(min: F, median: F, max: F) -> Seq<(F, F)> {
    seq![(zero(), min), (half(), median), (one(), max)]
}

/// Total area fraction of the bands.
pub open spec fn total_area<F: Arith>(bands: Seq<ElevationBand<F>>) -> F {
    sum(Seq::new(bands.len(), |i: int| bands[i].area_fraction))
}

/// Whether a band has a negative fraction or no proper elevation.
pub open spec fn band_unsound<F: Arith>(band: ElevationBand<F>) -> bool {
    band.area_fraction.below(zero()) || !band.elevation.finite()
}

/// The first unsound band from index `i` on, or the number of bands.
pub open spec fn first_unsound<F: Arith>(bands: Seq<ElevationBand<F>>, i: nat) -> nat
    decreases bands.len() - i,
{
    if i >= bands.len() || band_unsound(bands[i as int]) {
        i
    } else {
        first_unsound(bands, i + 1)
    }
}

/// Why a layout is rejected, if it is.
pub open spec fn layout_fault<F: Arith>(cfg: Layout<F>) -> Option<Fault> {
    let unsound = first_unsound(cfg.bands, 0);
    if cfg.bands.len() == 0 {
        Some(invalid("bands"@, "at least one elevation band is required"@))
    } else if F::literal(1, 1000).below(total_area(cfg.bands).minus(one()).magnitude()) {
        Some(
            invalid(
                "bands"@,
                "area fractions must sum to 1 (got "@ + total_area(cfg.bands).rendered() + ")"@,
            ),
        )
    } else if unsound < cfg.bands.len() {
        Some(
            invalid(
                "bands"@,
                "band "@ + decimal_text(unsound)
                    + ": negative fraction or non-finite elevation"@,
            ),
        )
    } else if !cfg.tcalt.finite() || !cfg.pcalt.finite() {
        Some(invalid("bands"@, "tcalt/pcalt must be finite"@))
    } else {
        None
    }
}

/// Interpolates a curve.
fn interpolate_curve<F: Scalar>(curve: &[(F, F)], at: F) -> (r: F)
    requires
        curve@.len() > 0,
    ensures
        r == interpolated(curve@, at),
{
    if at.at_most(curve[0].0) {
        return curve[0].1;
    }
    let last = curve.len() - 1;
    if curve[last].0.at_most(at) {
        return curve[last].1;
    }
    let mut i: usize = 0;
    while i < last
        invariant
            i <= last,
            last == curve@.len() - 1,
            from_knot(curve@, at, 0) == from_knot(curve@, at, i as int),
            interpolated(curve@, at) == from_knot(curve@, at, 0),
        decreases curve@.len() - i,
    {
        let (x0, y0) = curve[i];
        let (x1, y1) = curve[i + 1];
        if at.at_most(x1) {
            if x1.equal_to(x0) {
                return y0;
            }
            let t = at.sub(x0).div(x1.sub(x0));
            return y0.add(t.mul(y1.sub(y0)));
        }
        i = i + 1;
    }
    curve[last].1
}

impl<F: Scalar> ElevationBands<F> {
    /// HBV-light default lapse rates.
    pub fn new(bands: Vec<ElevationBand<F>>, reference_elevation: F) -> (r: Self)
        ensures
            r@ == default_layout(bands@, reference_elevation),
    {
        ElevationBands {
            bands,
            reference_elevation,
            tcalt: F::ratio(6, 10),
            pcalt: F::ratio(1, 10),
        }
    }

    /// Builds `n` equal-area bands from a hypsometric curve.
    ///
    /// `curve` is the catchment's hypsometry as `(cumulative_area_fraction,
    /// elevation)` knots, sorted by increasing fraction and spanning at least
    /// `[0, 1]` (e.g. `[(0, z_min), (0.5, z_median), (1, z_max)]`, or a dense
    /// curve sampled from a DEM). Each band covers an equal area `1/n`; its
    /// representative elevation is the curve evaluated at the band's midpoint
    /// fraction by monotone linear interpolation. Unlike hand-picked or
    /// equal-elevation bands, the elevations follow where the catchment area
    /// actually sits.
    pub fn equal_area_from_hypsometry(
        curve: &[(F, F)],
        n: usize,
        reference_elevation: F,
    ) -> (r: Result<Self, Error>)
        ensures
            match curve_fault(curve@, n as nat) {
                Some(fault) => r is Err && r->Err_0@ == fault,
                None => {
                    &&& r is Ok
                    &&& r->Ok_0@ == default_layout(
                        equal_area_bands(curve@, n as nat),
                        reference_elevation,
                    )
                },
            },
    {
        if n == 0 {
            return Err(reject("n", "need at least one band"));
        }
        if curve.len() < 2 {
            return Err(reject("curve", "hypsometric curve needs at least two knots"));
        }
        let last = curve.len() - 1;
        let mut w: usize = 0;
        while w < last
            invariant
                n > 0,
                curve@.len() >= 2,
                last == curve@.len() - 1,
                w <= last,
                forall|i: int| 0 <= i < w ==> !#[trigger] knot_out_of_order(curve@, i),
            decreases curve@.len() - w,
        {
            let (x0, y0) = curve[w];
            let (x1, y1) = curve[w + 1];
            // Fractions must be non-decreasing; elevations must not decrease
            // (a hypsometric curve is monotone by construction).
            if x1.less_than(x0) || y1.less_than(y0) || !x0.is_finite() || !y0.is_finite() {
                assert(knot_out_of_order(curve@, w as int));
                return Err(
                    reject(
                        "curve",
                        "knots must be sorted with non-decreasing fraction and elevation",
                    ),
                );
            }
            w = w + 1;
        }
        let nf = F::from_usize(n);
        let mut bands: Vec<ElevationBand<F>> = Vec::new();
        let mut i: usize = 0;
        while i < n
            invariant
                i <= n,
                curve@.len() >= 2,
                nf == F::natural(n as nat),
                bands@.len() == i,
                forall|j: int|
                    0 <= j < i ==> #[trigger] bands@[j] == equal_area_band(curve@, n as nat, j),
            decreases n - i,
        {
            // Midpoint of band i's area fraction: (i + 0.5)/n.
            let frac = F::from_usize(i).add(F::ratio(1, 2)).div(nf);
            bands.push(
                ElevationBand {
                    elevation: interpolate_curve(curve, frac),
                    area_fraction: F::ratio(1, 1).div(nf),
                },
            );
            i = i + 1;
        }
        assert(bands@ =~= equal_area_bands(curve@, n as nat));
        Ok(ElevationBands::new(bands, reference_elevation))
    }

    /// Convenience hypsometry from the three elevation quantiles reported by
    /// datasets such as CAMELS-CL (minimum, median, maximum). Reconstructs the
    /// curve `[(0, min), (0.5, median), (1, max)]` and delegates to
    /// [`Self::equal_area_from_hypsometry`]. The reference elevation defaults
    /// to the median.
    ///
    /// This is the data-poor fallback; a curve sampled from a DEM clipped to
    /// the catchment is strictly better and plugs into the same constructor.
    pub fn from_quantiles(min: F, median: F, max: F, n: usize) -> (r: Result<Self, Error>)
        ensures
            match curve_fault(quantile_curve(min, median, max), n as nat) {
                Some(fault) => r is Err && r->Err_0@ == fault,
                None => {
                    &&& r is Ok
                    &&& r->Ok_0@ == default_layout(
                        equal_area_bands(quantile_curve(min, median, max), n as nat),
                        median,
                    )
                },
            },
    {
        let mut curve: Vec<(F, F)> = Vec::new();
        curve.push((F::ratio(0, 1), min));
        curve.push((F::ratio(1, 2), median));
        curve.push((F::ratio(1, 1), max));
        assert(curve@ =~= quantile_curve(min, median, max));
        ElevationBands::equal_area_from_hypsometry(curve.as_slice(), n, median)
    }

    /// Checks that the area fractions sum to one and every band is sound.
    pub fn validate(&self) -> (r: Result<(), Error>)
        ensures
            match layout_fault(self@) {
                Some(fault) => r is Err && r->Err_0@ == fault,
                None => r is Ok,
            },
    {
        if self.bands.len() == 0 {
            return Err(reject("bands", "at least one elevation band is required"));
        }
        let ghost fractions = Seq::new(self.bands@.len(), |i: int| self.bands@[i].area_fraction);
        let mut total = F::ratio(0, 1);
        let mut i: usize = 0;
        assert(fractions.take(0) =~= Seq::<F>::empty());
        while i < self.bands.len()
            invariant
                i <= self.bands@.len(),
                fractions == Seq::new(self.bands@.len(), |i: int| self.bands@[i].area_fraction),
                total == sum(fractions.take(i as int)),
            decreases self.bands@.len() - i,
        {
            assert(fractions.take(i + 1).drop_last() =~= fractions.take(i as int));
            total = total.add(self.bands[i].area_fraction);
            i = i + 1;
        }
        assert(fractions.take(i as int) =~= fractions);
        if F::ratio(1, 1000).less_than(total.sub(F::ratio(1, 1)).abs()) {
            let mut reason = "area fractions must sum to 1 (got ".to_owned();
            reason.append(total.render().as_str());
            reason.append(")");
            return Err(reject("bands", reason.as_str()));
        }
        let mut j: usize = 0;
        while j < self.bands.len()
            invariant
                j <= self.bands@.len(),
                self.bands@.len() > 0,
                total == total_area(self.bands@),
                !F::literal(1, 1000).below(total_area(self.bands@).minus(one()).magnitude()),
                first_unsound(self.bands@, 0) == first_unsound(self.bands@, j as nat),
            decreases self.bands@.len() - j,
        {
            let b = self.bands[j];
            if b.area_fraction.less_than(F::ratio(0, 1)) || !b.elevation.is_finite() {
                let reason = around("band ", j, ": negative fraction or non-finite elevation");
                return Err(reject("bands", reason.as_str()));
            }
            j = j + 1;
        }
        if !self.tcalt.is_finite() || !self.pcalt.is_finite() {
            return Err(reject("bands", "tcalt/pcalt must be finite"));
        }
        Ok(())
    }
}

/// Per-band snow + soil state of the semi-distributed model.
#[derive(Debug, Clone)]
pub struct BandState<F> {
    /// Frozen snowpack (mm water equivalent).
    pub snowpack: F,
    /// Liquid water held in the snowpack (mm).
    pub liquid_water: F,
    /// Soil moisture (mm).
    pub soil_moisture: F,
}

/// State of [`HbvBands`].
#[derive(Debug, Clone)]
pub struct HbvBandsState<F> {
    /// Snow and soil of each band.
    pub bands: Vec<BandState<F>>,
    /// Upper response zone (mm).
    pub suz: F,
    /// Lower response zone (mm).
    pub slz: F,
    /// Water in transit to the outlet, by days to arrival (mm).
    pub routing: Vec<F>,
}

/// Contents of an [`HbvBandsState`].
#[verifier::ext_equal]
pub struct BandedStores<F> {
    /// Snow and soil of each band.
    pub bands: Seq<BandState<F>>,
    /// Upper response zone.
    pub suz: F,
    /// Lower response zone.
    pub slz: F,
    /// Water in transit.
    pub routing: Seq<F>,
}

impl<F> View for HbvBandsState<F> {
    type V = BandedStores<F>;

    open spec fn view(&self) -> BandedStores<F> {
        BandedStores {
            bands: self.bands@,
            suz: self.suz,
            slz: self.slz,
            routing: self.routing@,
        }
    }
}

/// Semi-distributed HBV: the snow and soil routines run independently per
/// elevation band (with lapsed temperature and a precipitation gradient);
/// the area-weighted recharge feeds a single shared response routine, as in
/// HBV-light's elevation zones.
///
/// Temperature forcing is required: elevation bands without a snow routine
/// would only re-scale precipitation.
#[derive(Debug, Clone)]
pub struct HbvBands<F> {
    params: HbvParams<F>,
    config: ElevationBands<F>,
    weights: Vec<F>,
}

/// Height of a band above the reference, in units of 100 m.
pub open spec fn lift<F: Arith>(cfg: Layout<F>, i: int) -> F {
    cfg.bands[i].elevation.minus(cfg.reference_elevation).times(F::literal(1, 100))
}

/// Temperature of band `i`.
pub open spec fn band_temp<F: Arith>(cfg: Layout<F>, i: int, t: F) -> F {
    t.minus(cfg.tcalt.times(lift(cfg, i)))
}

/// Precipitation of band `i`, never negative.
pub open spec fn band_precip<F: Arith>(cfg: Layout<F>, i: int, p: F) -> F {
    p.times(one::<F>().plus(cfg.pcalt.times(lift(cfg, i)))).greater(zero())
}

/// State of band `i` after one step.
pub open spec fn band_next<F: Arith>(
    prm: HbvParams<F>,
    cfg: Layout<F>,
    i: int,
    st: BandState<F>,
    p: F,
    t: F,
    pet: F,
) -> BandState<F> {
    let snow = snow_step(
        prm,
        st.snowpack,
        st.liquid_water,
        band_precip(cfg, i, p),
        band_temp(cfg, i, t),
    );
    BandState {
        snowpack: snow.snowpack,
        liquid_water: snow.liquid_water,
        soil_moisture: soil_step(prm, st.soil_moisture, snow.release, pet).soil_moisture,
    }
}

/// Recharge generated on band `i`.
pub open spec fn band_recharge<F: Arith>(
    prm: HbvParams<F>,
    cfg: Layout<F>,
    i: int,
    st: BandState<F>,
    p: F,
    t: F,
    pet: F,
) -> F {
    let snow = snow_step(
        prm,
        st.snowpack,
        st.liquid_water,
        band_precip(cfg, i, p),
        band_temp(cfg, i, t),
    );
    soil_step(prm, st.soil_moisture, snow.release, pet).recharge
}

/// Area-weighted recharge of the first `n` bands.
pub open spec fn total_recharge<F: Arith>(
    prm: HbvParams<F>,
    cfg: Layout<F>,
    bands: Seq<BandState<F>>,
    p: F,
    t: F,
    pet: F,
    n: nat,
) -> F
    decreases n,
{
    if n == 0 {
        zero()
    } else {
        total_recharge(prm, cfg, bands, p, t, pet, (n - 1) as nat).plus(
            cfg.bands[n - 1].area_fraction.times(
                band_recharge(prm, cfg, n - 1, bands[n - 1], p, t, pet),
            ),
        )
    }
}

/// How many bands have both a layout and a state.
pub open spec fn paired_bands<F>(cfg: Layout<F>, bands: Seq<BandState<F>>) -> nat {
    if cfg.bands.len() <= bands.len() {
        cfg.bands.len()
    } else {
        bands.len()
    }
}

/// Recharge of all bands.
pub open spec fn catchment_recharge<F: Arith>(
    prm: HbvParams<F>,
    cfg: Layout<F>,
    st: BandedStores<F>,
    p: F,
    t: F,
    pet: F,
) -> F {
    total_recharge(prm, cfg, st.bands, p, t, pet, paired_bands(cfg, st.bands))
}

/// State after one time step.
pub open spec fn banded_next<F: Arith>(
    prm: HbvParams<F>,
    cfg: Layout<F>,
    st: BandedStores<F>,
    p: F,
    t: F,
    pet: F,
) -> BandedStores<F> {
    let response = response_step(prm, st.suz, st.slz, catchment_recharge(prm, cfg, st, p, t, pet));
    BandedStores {
        bands: Seq::new(
            st.bands.len(),
            |i: int|
                if i < cfg.bands.len() {
                    band_next(prm, cfg, i, st.bands[i], p, t, pet)
                } else {
                    st.bands[i]
                },
        ),
        suz: response.suz,
        slz: response.slz,
        routing: advanced(routing_charged(prm, st.routing, response.runoff)),
    }
}

/// Discharge of one time step.
pub open spec fn banded_discharge<F: Arith>(
    prm: HbvParams<F>,
    cfg: Layout<F>,
    st: BandedStores<F>,
    p: F,
    t: F,
    pet: F,
) -> F {
    let response = response_step(prm, st.suz, st.slz, catchment_recharge(prm, cfg, st, p, t, pet));
    routing_charged(prm, st.routing, response.runoff)[0]
}

/// State after the first `n` steps of the forcing.
pub open spec fn banded_after<F: Arith>(
    prm: HbvParams<F>,
    cfg: Layout<F>,
    st: BandedStores<F>,
    precip: Seq<F>,
    pet: Seq<F>,
    temp: Seq<F>,
    n: nat,
) -> BandedStores<F>
    decreases n,
{
    if n == 0 {
        st
    } else {
        banded_next(
            prm,
            cfg,
            banded_after(prm, cfg, st, precip, pet, temp, (n - 1) as nat),
            precip[n - 1],
            temp[n - 1],
            pet[n - 1],
        )
    }
}

/// Discharge series of the forcing, from state `st`.
pub open spec fn banded_series<F: Arith>(
    prm: HbvParams<F>,
    cfg: Layout<F>,
    st: BandedStores<F>,
    precip: Seq<F>,
    pet: Seq<F>,
    temp: Seq<F>,
) -> Seq<F> {
    Seq::new(
        precip.len(),
        |i: int|
            banded_discharge(
                prm,
                cfg,
                banded_after(prm, cfg, st, precip, pet, temp, i as nat),
                precip[i],
                temp[i],
                pet[i],
            ),
    )
}

/// Default initial state of a band: soil at half capacity, no snow.
pub open spec fn band_start<F: Arith>(prm: HbvParams<F>) -> BandState<F> {
    BandState {
        snowpack: zero(),
        liquid_water: zero(),
        soil_moisture: half::<F>().times(prm.fc),
    }
}

/// Default initial state: each band at its default, empty stores.
pub open spec fn banded_start<F: Arith>(prm: HbvParams<F>, cfg: Layout<F>) -> BandedStores<F> {
    BandedStores {
        bands: Seq::new(cfg.bands.len(), |i: int| band_start(prm)),
        suz: zero(),
        slz: zero(),
        routing: Seq::new(buffer_len(prm.maxbas), |j: int| zero()),
    }
}

/// Why parameters and layout are rejected, if they are.
pub open spec fn banded_fault<F: Arith>(prm: HbvParams<F>, cfg: Layout<F>) -> Option<Fault> {
    match hbv_fault(prm) {
        Some(fault) => Some(fault),
        None => layout_fault(cfg),
    }
}

impl<F> HbvBands<F> {
    /// The parameters of the model.
    pub closed spec fn spec_params(self) -> HbvParams<F> {
        self.params
    }

    /// The layout of the model.
    pub closed spec fn spec_config(self) -> Layout<F> {
        self.config@
    }
}

impl<F: Arith> HbvBands<F> {
    /// A model has sound parameters, a sound layout and the routing weights
    /// the parameters call for.
    pub closed spec fn wf(self) -> bool {
        &&& banded_fault(self.params, self.config@) is None
        &&& self.weights@ == triangle_weights(self.params.maxbas)
    }
}

impl<F: Scalar> HbvBands<F> {
    /// Builds the model, validating the parameters and the layout.
    pub fn new(params: HbvParams<F>, config: ElevationBands<F>) -> (r: Result<Self, Error>)
        ensures
            match banded_fault(params, config@) {
                Some(fault) => r is Err && r->Err_0@ == fault,
                None => {
                    &&& r is Ok
                    &&& r->Ok_0.wf()
                    &&& r->Ok_0.spec_params() == params
                    &&& r->Ok_0.spec_config() == config@
                },
            },
    {
        match check_params(&params) {
            Err(e) => Err(e),
            Ok(_) => match config.validate() {
                Err(e) => Err(e),
                Ok(_) => {
                    let weights = maxbas_weights(params.maxbas);
                    Ok(HbvBands { params, config, weights })
                },
            },
        }
    }

    /// The parameters of the model.
    pub fn params(&self) -> (r: &HbvParams<F>)
        ensures
            *r == self.spec_params(),
    {
        &self.params
    }

    /// The layout of the model.
    pub fn config(&self) -> (r: &ElevationBands<F>)
        ensures
            r@ == self.spec_config(),
    {
        &self.config
    }

    /// Default initial state: each band's soil at half capacity, empty stores.
    pub fn initial_state(&self) -> (r: HbvBandsState<F>)
        requires
            self.wf(),
        ensures
            r@ == banded_start(self.spec_params(), self.spec_config()),
            r@.routing.len() > 0,
    {
        let mut bands: Vec<BandState<F>> = Vec::new();
        let n = self.config.bands.len();
        let mut i: usize = 0;
        while i < n
            invariant
                i <= n,
                bands@.len() == i,
                forall|j: int| 0 <= j < i ==> #[trigger] bands@[j] == band_start(self.params),
            decreases n - i,
        {
            bands.push(
                BandState {
                    snowpack: F::ratio(0, 1),
                    liquid_water: F::ratio(0, 1),
                    soil_moisture: F::ratio(1, 2).mul(self.params.fc),
                },
            );
            i = i + 1;
        }
        let r = HbvBandsState {
            bands,
            suz: F::ratio(0, 1),
            slz: F::ratio(0, 1),
            routing: zeros(self.weights.len()),
        };
        assert(r@ =~= banded_start(self.spec_params(), self.spec_config()));
        r
    }

    /// Advances one time step. `p`, `t` and `pet` are the lumped forcing at
    /// the reference elevation; each band sees lapsed temperature and a
    /// precipitation gradient (PET is kept uniform).
    pub fn step(&self, state: &mut HbvBandsState<F>, p: F, t: F, pet: F) -> (q: F)
        requires
            self.wf(),
            old(state)@.routing.len() > 0,
        ensures
            final(state)@ == banded_next(
                self.spec_params(),
                self.spec_config(),
                old(state)@,
                p,
                t,
                pet,
            ),
            final(state)@.routing.len() == old(state)@.routing.len(),
            q == banded_discharge(self.spec_params(), self.spec_config(), old(state)@, p, t, pet),
    {
        let ghost cfg = self.config@;
        let ghost start = old(state)@;
        let mut recharge = F::ratio(0, 1);
        let mut i: usize = 0;
        while i < self.config.bands.len() && i < state.bands.len()
            invariant
                cfg == self.config@,
                start == old(state)@,
                i <= self.config.bands@.len(),
                i <= state.bands@.len(),
                state.bands@.len() == start.bands.len(),
                state.suz == start.suz,
                state.slz == start.slz,
                state.routing@ == start.routing,
                forall|j: int|
                    0 <= j < i ==> #[trigger] state.bands@[j] == band_next(
                        self.params,
                        cfg,
                        j,
                        start.bands[j],
                        p,
                        t,
                        pet,
                    ),
                forall|j: int|
                    i <= j < start.bands.len() ==> #[trigger] state.bands@[j] == start.bands[j],
                recharge == total_recharge(self.params, cfg, start.bands, p, t, pet, i as nat),
            decreases start.bands.len() - i,
        {
            let band = self.config.bands[i];
            let dz100 = band.elevation.sub(self.config.reference_elevation).mul(F::ratio(1, 100));
            let tb = t.sub(self.config.tcalt.mul(dz100));
            let pb = p.mul(F::ratio(1, 1).add(self.config.pcalt.mul(dz100))).max(F::ratio(0, 1));
            let snow = run_snow(
                &self.params,
                state.bands[i].snowpack,
                state.bands[i].liquid_water,
                pb,
                tb,
            );
            let soil = run_soil(&self.params, state.bands[i].soil_moisture, snow.release, pet);
            state.bands.set(
                i,
                BandState {
                    snowpack: snow.snowpack,
                    liquid_water: snow.liquid_water,
                    soil_moisture: soil.soil_moisture,
                },
            );
            recharge = recharge.add(band.area_fraction.mul(soil.recharge));
            i = i + 1;
        }
        assert(i == paired_bands(cfg, start.bands));
        let response = run_response(&self.params, state.suz, state.slz, recharge);
        state.suz = response.suz;
        state.slz = response.slz;
        spread_pulse(&self.weights, &mut state.routing, response.runoff);
        let q = shift_front(&mut state.routing);
        assert(state@ =~= banded_next(self.params, cfg, start, p, t, pet));
        q
    }

    /// Runs the series from `state`, which is carried along to the end of the
    /// series. A rejected forcing leaves the state as it was.
    pub fn run_from(
        &self,
        state: &mut HbvBandsState<F>,
        precip: &[F],
        pet: &[F],
        temp: &[F],
    ) -> (r: Result<Vec<F>, Error>)
        requires
            self.wf(),
            old(state)@.routing.len() > 0,
        ensures
            match hbv_forcing_fault(precip@.len(), pet@.len(), Some(temp@.len())) {
                Some(fault) => r is Err && r->Err_0@ == fault && final(state)@ == old(state)@,
                None => {
                    &&& r is Ok
                    &&& r->Ok_0@ == banded_series(
                        self.spec_params(),
                        self.spec_config(),
                        old(state)@,
                        precip@,
                        pet@,
                        temp@,
                    )
                    &&& final(state)@ == banded_after(
                        self.spec_params(),
                        self.spec_config(),
                        old(state)@,
                        precip@,
                        pet@,
                        temp@,
                        precip@.len(),
                    )
                },
            },
            final(state)@.routing.len() == old(state)@.routing.len(),
    {
        if precip.len() != pet.len() {
            return Err(Error::ForcingLengthMismatch { precip: precip.len(), pet: pet.len() });
        }
        if temp.len() != precip.len() {
            let reason = steps_reason(precip.len(), temp.len());
            return Err(reject("temp", reason.as_str()));
        }
        let ghost prm = self.spec_params();
        let ghost cfg = self.spec_config();
        let ghost start = old(state)@;
        let mut q: Vec<F> = Vec::new();
        let mut i: usize = 0;
        while i < precip.len()
            invariant
                self.wf(),
                prm == self.spec_params(),
                cfg == self.spec_config(),
                i <= precip@.len(),
                precip@.len() == pet@.len(),
                precip@.len() == temp@.len(),
                state@.routing.len() == start.routing.len(),
                start.routing.len() > 0,
                state@ == banded_after(prm, cfg, start, precip@, pet@, temp@, i as nat),
                q@.len() == i,
                forall|j: int|
                    0 <= j < i ==> #[trigger] q@[j] == banded_series(
                        prm,
                        cfg,
                        start,
                        precip@,
                        pet@,
                        temp@,
                    )[j],
            decreases precip@.len() - i,
        {
            let v = self.step(state, precip[i], temp[i], pet[i]);
            q.push(v);
            i = i + 1;
        }
        assert(q@ =~= banded_series(prm, cfg, start, precip@, pet@, temp@));
        Ok(q)
    }

    /// Runs the full series from the default initial state.
    pub fn run(&self, precip: &[F], pet: &[F], temp: &[F]) -> (r: Result<Vec<F>, Error>)
        requires
            self.wf(),
        ensures
            match hbv_forcing_fault(precip@.len(), pet@.len(), Some(temp@.len())) {
                Some(fault) => r is Err && r->Err_0@ == fault,
                None => {
                    &&& r is Ok
                    &&& r->Ok_0@ == banded_series(
                        self.spec_params(),
                        self.spec_config(),
                        banded_start(self.spec_params(), self.spec_config()),
                        precip@,
                        pet@,
                        temp@,
                    )
                },
            },
    {
        let mut state = self.initial_state();
        self.run_from(&mut state, precip, pet, temp)
    }
}

} // verus!
