//! Tests of HBV-light, lumped and over elevation bands.
use num_traits::Float;
use rainflow::hbv::maxbas_weights;
use rainflow::number::{Arith, Scalar};
use rainflow::{ElevationBand, ElevationBands, Hbv, HbvBands, HbvParams};

/// A machine number for the models to compute with.
#[derive(Debug, Clone, Copy, PartialEq, PartialOrd)]
struct Num<T>(T);

impl<T: Float> Arith for Num<T> {}

impl<T: Float> Scalar for Num<T> {
    fn ratio(num: i64, den: i64) -> Self {
        Num(T::from(num as f64 / den as f64).unwrap())
    }
    fn from_usize(n: usize) -> Self {
        Num(T::from(n).unwrap())
    }
    fn nan() -> Self {
        Num(T::nan())
    }
    fn add(self, other: Self) -> Self {
        Num(self.0 + other.0)
    }
    fn sub(self, other: Self) -> Self {
        Num(self.0 - other.0)
    }
    fn mul(self, other: Self) -> Self {
        Num(self.0 * other.0)
    }
    fn div(self, other: Self) -> Self {
        Num(self.0 / other.0)
    }
    fn min(self, other: Self) -> Self {
        Num(self.0.min(other.0))
    }
    fn max(self, other: Self) -> Self {
        Num(self.0.max(other.0))
    }
    fn abs(self) -> Self {
        Num(self.0.abs())
    }
    fn powf(self, exponent: Self) -> Self {
        Num(self.0.powf(exponent.0))
    }
    fn powi(self, exponent: i32) -> Self {
        Num(self.0.powi(exponent))
    }
    fn sqrt(self) -> Self {
        Num(self.0.sqrt())
    }
    fn ln(self) -> Self {
        Num(self.0.ln())
    }
    fn tanh(self) -> Self {
        Num(self.0.tanh())
    }
    fn less_than(self, other: Self) -> bool {
        self.0 < other.0
    }
    fn at_most(self, other: Self) -> bool {
        self.0 <= other.0
    }
    fn equal_to(self, other: Self) -> bool {
        self.0 == other.0
    }
    fn is_nan(self) -> bool {
        self.0.is_nan()
    }
    fn is_finite(self) -> bool {
        self.0.is_finite()
    }
    fn ceil_to_usize(self) -> Option<usize> {
        self.0.ceil().to_usize()
    }
    fn render(self) -> String {
        format!("{:?}", self.0.to_f64())
    }
}

type N = Num<f64>;

fn n(v: f64) -> N {
    Num(v)
}

fn ns(v: &[f64]) -> Vec<N> {
    v.iter().map(|&x| Num(x)).collect()
}

fn vs(v: &[N]) -> Vec<f64> {
    v.iter().map(|x| x.0).collect()
}

/// Deterministic synthetic forcing (LCG) with temperature.
fn synthetic_forcing(n: usize) -> (Vec<f64>, Vec<f64>, Vec<f64>) {
    let mut seed: u64 = 42;
    let mut next = move || {
        seed = seed
            .wrapping_mul(6364136223846793005)
            .wrapping_add(1442695040888963407);
        (seed >> 33) as f64 / (1u64 << 31) as f64
    };
    let (mut p, mut pet, mut temp) = (Vec::new(), Vec::new(), Vec::new());
    for i in 0..n {
        let doy = (i % 365) as f64;
        let wet = if (120.0..270.0).contains(&doy) {
            0.55
        } else {
            0.15
        };
        p.push(if next() < wet {
            -12.0 * (1.0 - next()).ln()
        } else {
            0.0
        });
        let season = (2.0 * std::f64::consts::PI * (doy - 15.0) / 365.25).sin();
        pet.push((3.5 + 2.5 * season).max(0.1));
        temp.push(8.0 + 12.0 * season + 3.0 * (next() - 0.5));
    }
    (p, pet, temp)
}

fn params() -> HbvParams<N> {
    HbvParams {
        tt: n(0.0),
        cfmax: n(3.5),
        sfcf: n(0.9),
        cfr: n(0.05),
        cwh: n(0.1),
        fc: n(250.0),
        lp: n(0.7),
        beta: n(2.0),
        k0: n(0.3),
        k1: n(0.1),
        k2: n(0.01),
        uzl: n(20.0),
        perc: n(2.0),
        maxbas: n(2.5),
    }
}

fn band(e: f64, f: f64) -> ElevationBand<N> {
    ElevationBand {
        elevation: n(e),
        area_fraction: n(f),
    }
}

fn knots(curve: &[(f64, f64)]) -> Vec<(N, N)> {
    curve.iter().map(|&(f, z)| (n(f), n(z))).collect()
}

#[test]
fn maxbas_weights_sum_to_one() {
    for mb in [1.0, 1.5, 2.5, 4.0, 7.3] {
        let w = vs(&maxbas_weights(n(mb)));
        let s: f64 = w.iter().sum();
        assert!((s - 1.0).abs() < 1e-12, "sum {s} for maxbas={mb}");
        assert_eq!(w.len(), mb.ceil() as usize);
    }
}

#[test]
fn mass_balance_closes_with_snow() {
    let model = Hbv::new(params()).unwrap();
    let (p, pet, temp) = synthetic_forcing(3000);
    let mut state = model.initial_state();
    let s0 = model.storage(&state).0;
    let (mut total_q, mut total_in) = (0.0, 0.0);
    for i in 0..p.len() {
        // Snowfall is scaled by SFCF, so accumulate the corrected input.
        total_in += if temp[i] < model.params().tt.0 {
            p[i] * model.params().sfcf.0
        } else {
            p[i]
        };
        total_q += model
            .step(&mut state, n(p[i]), Some(n(temp[i])), n(pet[i]))
            .0;
    }
    let aet = total_in - total_q - (model.storage(&state).0 - s0);
    let total_pet: f64 = pet.iter().sum();
    assert!(aet >= 0.0, "negative actual ET: {aet}");
    assert!(aet <= total_pet, "actual ET {aet} exceeds PET {total_pet}");
}

#[test]
fn snow_accumulates_below_threshold_and_melts_above() {
    let model = Hbv::new(params()).unwrap();
    let mut state = model.initial_state();
    for _ in 0..30 {
        model.step(&mut state, n(10.0), Some(n(-5.0)), n(0.5));
    }
    let peak = state.snowpack.0;
    assert!(
        (peak - 30.0 * 10.0 * 0.9).abs() < 1e-9,
        "snowpack {peak} != accumulated corrected snowfall"
    );
    for _ in 0..200 {
        model.step(&mut state, n(0.0), Some(n(10.0)), n(2.0));
    }
    assert!(
        state.snowpack.0 < 1e-9,
        "snowpack did not melt: {}",
        state.snowpack.0
    );
}

#[test]
fn stores_stay_bounded() {
    let model = Hbv::new(params()).unwrap();
    let (p, pet, temp) = synthetic_forcing(3000);
    let mut state = model.initial_state();
    for i in 0..p.len() {
        let q = model.step(&mut state, n(p[i]), Some(n(temp[i])), n(pet[i]));
        assert!(q.0 >= 0.0);
        assert!(state.soil_moisture.0 >= 0.0 && state.soil_moisture.0 <= 250.0);
        assert!(state.suz.0 >= 0.0 && state.slz.0 >= 0.0);
        assert!(state.snowpack.0 >= 0.0 && state.liquid_water.0 >= 0.0);
    }
}

#[test]
fn runs_without_temperature() {
    let model = Hbv::new(params()).unwrap();
    let (p, pet, _) = synthetic_forcing(500);
    let q = vs(&model.run(&ns(&p), &ns(&pet), None).unwrap());
    assert_eq!(q.len(), 500);
    assert!(q.iter().all(|&v| v >= 0.0 && v.is_finite()));
    // Without temperature the snow stores must stay untouched.
    let mut state = model.initial_state();
    for i in 0..p.len() {
        model.step(&mut state, n(p[i]), None, n(pet[i]));
    }
    assert_eq!(state.snowpack, n(0.0));
    assert_eq!(state.liquid_water, n(0.0));
}

#[test]
fn hbv_generic_over_f32_and_f64() {
    let (p64, pet64, temp64) = synthetic_forcing(400);
    let q64 = vs(&Hbv::new(params())
        .unwrap()
        .run(&ns(&p64), &ns(&pet64), Some(&ns(&temp64)))
        .unwrap());

    let narrow = |v: &[f64]| -> Vec<Num<f32>> { v.iter().map(|&x| Num(x as f32)).collect() };
    let (p32, pet32, temp32) = (narrow(&p64), narrow(&pet64), narrow(&temp64));
    let prm = params();
    let m32 = Hbv::new(HbvParams {
        tt: Num(prm.tt.0 as f32),
        cfmax: Num(prm.cfmax.0 as f32),
        sfcf: Num(prm.sfcf.0 as f32),
        cfr: Num(prm.cfr.0 as f32),
        cwh: Num(prm.cwh.0 as f32),
        fc: Num(prm.fc.0 as f32),
        lp: Num(prm.lp.0 as f32),
        beta: Num(prm.beta.0 as f32),
        k0: Num(prm.k0.0 as f32),
        k1: Num(prm.k1.0 as f32),
        k2: Num(prm.k2.0 as f32),
        uzl: Num(prm.uzl.0 as f32),
        perc: Num(prm.perc.0 as f32),
        maxbas: Num(prm.maxbas.0 as f32),
    })
    .unwrap();
    let q32 = m32.run(&p32, &pet32, Some(&temp32)).unwrap();
    for (a, b) in q64.iter().zip(&q32) {
        let b = b.0;
        assert!(
            (a - b as f64).abs() < 5e-3,
            "f32/f64 divergence: {a} vs {b}"
        );
    }
}

#[test]
fn single_band_at_reference_elevation_matches_lumped_model() {
    let (p, pet, temp) = synthetic_forcing(800);
    let (p, pet, temp) = (ns(&p), ns(&pet), ns(&temp));
    let lumped = Hbv::new(params()).unwrap();
    let q_lumped = vs(&lumped.run(&p, &pet, Some(&temp)).unwrap());

    let banded = HbvBands::new(
        params(),
        ElevationBands::new(vec![band(1000.0, 1.0)], n(1000.0)),
    )
    .unwrap();
    let q_banded = vs(&banded.run(&p, &pet, &temp).unwrap());
    for (a, b) in q_lumped.iter().zip(&q_banded) {
        assert!((a - b).abs() < 1e-12, "banded != lumped: {a} vs {b}");
    }
}

#[test]
fn higher_bands_accumulate_more_snow() {
    let bands = ElevationBands::new(vec![band(1500.0, 0.5), band(3500.0, 0.5)], n(2500.0));
    let model = HbvBands::new(params(), bands).unwrap();
    let (p, pet, temp) = synthetic_forcing(2000);
    let mut state = model.initial_state();
    let mut max_low = 0.0_f64;
    let mut max_high = 0.0_f64;
    for i in 0..p.len() {
        model.step(&mut state, n(p[i]), n(temp[i]), n(pet[i]));
        max_low = max_low.max(state.bands[0].snowpack.0);
        max_high = max_high.max(state.bands[1].snowpack.0);
    }
    assert!(
        max_high > max_low,
        "high band ({max_high} mm) should out-accumulate low band ({max_low} mm)"
    );
    assert!(max_high > 0.0, "no snow accumulated at 3500 m");
}

#[test]
fn equal_area_bands_from_quantiles_are_well_formed() {
    // CAMELS-CL 4703002: min 1153, median 3322, max 5038.
    let eb = ElevationBands::from_quantiles(n(1153.0), n(3322.0), n(5038.0), 3).unwrap();
    assert_eq!(eb.bands.len(), 3);
    // Equal area fractions summing to 1.
    let total: f64 = eb.bands.iter().map(|b| b.area_fraction.0).sum();
    assert!((total - 1.0).abs() < 1e-12);
    for b in &eb.bands {
        assert!((b.area_fraction.0 - 1.0 / 3.0).abs() < 1e-12);
    }
    // Elevations strictly increasing and bracketed by [min, max].
    assert!(eb.bands[0].elevation < eb.bands[1].elevation);
    assert!(eb.bands[1].elevation < eb.bands[2].elevation);
    assert!(eb.bands[0].elevation > n(1153.0) && eb.bands[2].elevation < n(5038.0));
    // Reference elevation defaults to the median; middle band (frac 0.5)
    // sits exactly on it.
    assert!((eb.reference_elevation.0 - 3322.0).abs() < 1e-12);
    assert!((eb.bands[1].elevation.0 - 3322.0).abs() < 1e-9);
    // Resulting config must validate and drive a model.
    assert!(HbvBands::new(params(), eb).is_ok());
}

#[test]
fn hypsometry_single_band_is_the_median() {
    let eb = ElevationBands::from_quantiles(n(1000.0), n(2000.0), n(4000.0), 1).unwrap();
    assert_eq!(eb.bands.len(), 1);
    assert!((eb.bands[0].area_fraction.0 - 1.0).abs() < 1e-12);
    // Midpoint fraction 0.5 -> the median knot.
    assert!((eb.bands[0].elevation.0 - 2000.0).abs() < 1e-9);
}

#[test]
fn hypsometry_rejects_bad_curves() {
    assert!(ElevationBands::from_quantiles(n(1000.0), n(2000.0), n(4000.0), 0).is_err());
    // Non-monotone elevation.
    let bad = knots(&[(0.0, 1000.0), (0.5, 800.0), (1.0, 2000.0)]);
    assert!(ElevationBands::equal_area_from_hypsometry(&bad, 3, n(1500.0)).is_err());
    // Single knot.
    let one = knots(&[(0.0, 1000.0)]);
    assert!(ElevationBands::equal_area_from_hypsometry(&one, 2, n(1000.0)).is_err());
}

#[test]
fn dense_hypsometry_recovers_band_means() {
    // A linear hypsometry z(f) = 1000 + 2000 f over [0, 1]: equal-area
    // bands must sit at the midpoint elevations 1000 + 2000*(i+0.5)/n.
    let curve: Vec<(N, N)> = (0..=100)
        .map(|k| {
            (
                n(k as f64 / 100.0),
                n(1000.0 + 2000.0 * (k as f64 / 100.0)),
            )
        })
        .collect();
    let eb = ElevationBands::equal_area_from_hypsometry(&curve, 4, n(2000.0)).unwrap();
    for (i, b) in eb.bands.iter().enumerate() {
        let expected = 1000.0 + 2000.0 * (i as f64 + 0.5) / 4.0;
        assert!(
            (b.elevation.0 - expected).abs() < 1.0,
            "band {i}: {} vs {expected}",
            b.elevation.0
        );
    }
}

#[test]
fn bands_validation_rejects_bad_configs() {
    // Fractions must sum to 1.
    assert!(HbvBands::new(
        params(),
        ElevationBands::new(vec![band(1000.0, 0.4), band(2000.0, 0.4)], n(1500.0))
    )
    .is_err());
    // At least one band.
    assert!(HbvBands::new(params(), ElevationBands::new(vec![], n(1500.0))).is_err());
    // Negative fraction.
    assert!(HbvBands::new(
        params(),
        ElevationBands::new(vec![band(1000.0, 1.5), band(2000.0, -0.5)], n(1500.0))
    )
    .is_err());
}

#[test]
fn hbv_rejects_invalid_parameters() {
    let mut bad = params();
    bad.fc = n(0.0);
    assert!(Hbv::new(bad).is_err());
    let mut bad = params();
    bad.lp = n(0.0);
    assert!(Hbv::new(bad).is_err());
    let mut bad = params();
    bad.k1 = n(1.5);
    assert!(Hbv::new(bad).is_err());
    let mut bad = params();
    bad.maxbas = n(0.5);
    assert!(Hbv::new(bad).is_err());
}

fn rejection(change: impl Fn(&mut HbvParams<N>)) -> String {
    let mut prm = params();
    change(&mut prm);
    Hbv::new(prm).unwrap_err().message()
}

#[test]
fn hbv_names_the_rejected_parameter() {
    let recession = "recession coefficients must be in [0, 1]";
    assert_eq!(
        rejection(|p| p.cfmax = n(-0.1)),
        "invalid parameter `cfmax`: melt factor must be >= 0"
    );
    assert_eq!(
        rejection(|p| p.sfcf = n(0.0)),
        "invalid parameter `sfcf`: snowfall correction must be > 0"
    );
    assert_eq!(
        rejection(|p| p.cfr = n(1.1)),
        "invalid parameter `cfr`: refreezing coefficient must be in [0, 1]"
    );
    assert_eq!(
        rejection(|p| p.cwh = n(f64::NAN)),
        "invalid parameter `cwh`: holding capacity must be >= 0"
    );
    assert_eq!(
        rejection(|p| p.fc = n(0.0)),
        "invalid parameter `fc`: soil storage must be > 0 mm"
    );
    assert_eq!(
        rejection(|p| p.lp = n(1.01)),
        "invalid parameter `lp`: LP must be in (0, 1]"
    );
    assert_eq!(
        rejection(|p| p.beta = n(0.0)),
        "invalid parameter `beta`: BETA must be > 0"
    );
    assert_eq!(
        rejection(|p| p.k0 = n(-0.1)),
        format!("invalid parameter `k0`: {recession}")
    );
    assert_eq!(
        rejection(|p| p.k1 = n(1.5)),
        format!("invalid parameter `k1`: {recession}")
    );
    assert_eq!(
        rejection(|p| p.k2 = n(f64::NAN)),
        format!("invalid parameter `k2`: {recession}")
    );
    assert_eq!(
        rejection(|p| p.uzl = n(-1.0)),
        "invalid parameter `uzl`: UZL must be >= 0 mm"
    );
    assert_eq!(
        rejection(|p| p.perc = n(-1.0)),
        "invalid parameter `perc`: PERC must be >= 0 mm/day"
    );
    assert_eq!(
        rejection(|p| p.maxbas = n(0.99)),
        "invalid parameter `maxbas`: MAXBAS must be >= 1 day"
    );
}

#[test]
fn fixed_defaults_only_touch_refreezing_and_holding() {
    let mut prm = params();
    prm.cfr = n(0.9);
    prm.cwh = n(0.9);
    let fixed = prm.with_fixed_defaults();
    assert_eq!(fixed, params());
}

#[test]
fn hbv_rejects_series_of_different_lengths() {
    let model = Hbv::new(params()).unwrap();
    let one = ns(&[1.0]);
    let two = ns(&[1.0, 2.0]);
    assert_eq!(
        model.run(&two, &one, None).unwrap_err().message(),
        "forcing series length mismatch: precip has 2 steps, pet has 1"
    );
    assert_eq!(
        model.run(&two, &two, Some(&one)).unwrap_err().message(),
        "invalid parameter `temp`: expected 2 steps, got 1"
    );
    let mut state = model.initial_state();
    assert!(model.run_from(&mut state, &two, &two, Some(&one)).is_err());
    assert_eq!(state.soil_moisture, n(125.0));
}

#[test]
fn hbv_step_gives_the_published_formulas() {
    let model = Hbv::new(params()).unwrap();
    let mut state = model.initial_state();
    state.snowpack = n(10.0);
    state.liquid_water = n(0.5);
    state.suz = n(40.0);
    state.slz = n(5.0);
    let q = model.step(&mut state, n(6.0), Some(n(2.0)), n(3.0)).0;

    // Snow: 7 mm melt, all but 10 % of the pack is released.
    let pack = 10.0 - 7.0;
    let held = 0.5 + 7.0 + 6.0;
    let release: f64 = held - 0.1 * pack;
    assert!((state.snowpack.0 - pack).abs() < 1e-12);
    assert!((state.liquid_water.0 - 0.1 * pack).abs() < 1e-12);
    // Soil at half capacity.
    let bulk = release * 0.5f64.powf(2.0);
    let filled = 125.0 + release - bulk;
    let aet = 3.0 * (filled / (250.0 * 0.7)).min(1.0);
    assert!((state.soil_moisture.0 - (filled - aet)).abs() < 1e-12);
    // Response.
    let upper = 40.0 + bulk - 2.0;
    let q0 = 0.3 * (upper - 20.0);
    let q1 = 0.1 * (upper - q0);
    let q2 = 0.01 * 7.0;
    assert!((state.suz.0 - (upper - q0 - q1)).abs() < 1e-12);
    assert!((state.slz.0 - (7.0 - q2)).abs() < 1e-12);
    // Routing: the first of the triangular weights.
    let first = 2.0 / (2.5 * 2.5);
    assert!((q - first * (q0 + q1 + q2)).abs() < 1e-12, "{q}");
}

#[test]
fn refreezing_is_limited_by_liquid_water() {
    let model = Hbv::new(params()).unwrap();
    let mut state = model.initial_state();
    state.snowpack = n(10.0);
    state.liquid_water = n(0.5);
    // 0.05 * 3.5 * 2 = 0.35 mm refreezes at -2 degrees.
    model.step(&mut state, n(0.0), Some(n(-2.0)), n(0.0));
    assert!((state.snowpack.0 - 10.35).abs() < 1e-12);
    assert!((state.liquid_water.0 - 0.15).abs() < 1e-12);
    model.step(&mut state, n(0.0), Some(n(-20.0)), n(0.0));
    assert!((state.snowpack.0 - 10.5).abs() < 1e-12);
    assert_eq!(state.liquid_water, n(0.0));
}

#[test]
fn soil_overflow_becomes_recharge() {
    let mut prm = params();
    prm.uzl = n(1000.0);
    prm.k1 = n(0.0);
    prm.perc = n(0.0);
    let model = Hbv::new(prm).unwrap();
    let mut state = model.initial_state();
    state.soil_moisture = n(249.0);
    model.step(&mut state, n(300.0), None, n(0.0));
    assert_eq!(state.soil_moisture, n(250.0));
    assert!((state.suz.0 - 299.0).abs() < 1e-9);
}

#[test]
fn hbv_storage_counts_every_store() {
    let model = Hbv::new(params()).unwrap();
    let mut state = model.initial_state();
    assert_eq!(model.storage(&state), n(125.0));
    state.snowpack = n(1.0);
    state.liquid_water = n(2.0);
    state.suz = n(4.0);
    state.slz = n(8.0);
    state.routing = ns(&[16.0, 32.0, 64.0]);
    assert_eq!(model.storage(&state), n(252.0));
}

#[test]
fn maxbas_weights_follow_the_triangle() {
    assert_eq!(vs(&maxbas_weights(n(1.0))), vec![1.0]);
    assert_eq!(vs(&maxbas_weights(n(2.0))), vec![0.5, 0.5]);
    let w = vs(&maxbas_weights(n(4.0)));
    for (a, b) in w.iter().zip([0.125, 0.375, 0.375, 0.125]) {
        assert!((a - b).abs() < 1e-12);
    }
}

#[test]
fn hbv_split_run_equals_continuous_run() {
    let model = Hbv::new(params()).unwrap();
    let (p, pet, temp) = synthetic_forcing(400);
    let (p, pet, temp) = (ns(&p), ns(&pet), ns(&temp));
    let whole = model.run(&p, &pet, Some(&temp)).unwrap();
    let mut state = model.initial_state();
    let mut parts = model
        .run_from(&mut state, &p[..150], &pet[..150], Some(&temp[..150]))
        .unwrap();
    parts.extend(
        model
            .run_from(&mut state, &p[150..], &pet[150..], Some(&temp[150..]))
            .unwrap(),
    );
    assert_eq!(whole, parts);
}

fn three_bands() -> ElevationBands<N> {
    ElevationBands::from_quantiles(n(1153.0), n(3322.0), n(5038.0), 3).unwrap()
}

#[test]
fn banded_split_run_equals_continuous_run() {
    let model = HbvBands::new(params(), three_bands()).unwrap();
    let (p, pet, temp) = synthetic_forcing(400);
    let (p, pet, temp) = (ns(&p), ns(&pet), ns(&temp));
    let whole = model.run(&p, &pet, &temp).unwrap();
    let mut state = model.initial_state();
    let mut parts = model
        .run_from(&mut state, &p[..99], &pet[..99], &temp[..99])
        .unwrap();
    parts.extend(
        model
            .run_from(&mut state, &p[99..], &pet[99..], &temp[99..])
            .unwrap(),
    );
    assert_eq!(whole, parts);
}

#[test]
fn banded_stores_stay_bounded() {
    let model = HbvBands::new(params(), three_bands()).unwrap();
    let (p, pet, temp) = synthetic_forcing(1500);
    let mut state = model.initial_state();
    for i in 0..p.len() {
        let q = model.step(&mut state, n(p[i]), n(temp[i]), n(pet[i]));
        assert!(q.0 >= 0.0 && q.0.is_finite());
        for b in &state.bands {
            assert!(b.snowpack.0 >= 0.0 && b.liquid_water.0 >= 0.0);
            assert!(b.soil_moisture.0 >= 0.0 && b.soil_moisture.0 <= 250.0);
        }
    }
}

#[test]
fn banded_model_conserves_water() {
    // With no evapotranspiration and rain only, what falls comes out or stays.
    let mut bands = three_bands();
    bands.pcalt = n(0.0);
    let model = HbvBands::new(params(), bands).unwrap();
    let mut state = model.initial_state();
    let mut out = 0.0;
    for _ in 0..200 {
        out += model.step(&mut state, n(5.0), n(40.0), n(0.0)).0;
    }
    let soil: f64 = state.bands.iter().map(|b| b.soil_moisture.0 / 3.0).sum();
    let held = soil + state.suz.0 + state.slz.0 + vs(&state.routing).iter().sum::<f64>();
    assert!((125.0 + 1000.0 - out - held).abs() < 1e-9);
}

#[test]
fn lapse_rates_shift_the_forcing_of_a_band() {
    // 1000 m above the reference: 6 degrees cooler, twice the precipitation.
    let bands = ElevationBands::new(vec![band(2000.0, 1.0)], n(1000.0));
    let model = HbvBands::new(params(), bands).unwrap();
    let mut state = model.initial_state();
    model.step(&mut state, n(10.0), n(5.0), n(0.0));
    assert!((state.bands[0].snowpack.0 - 2.0 * 10.0 * 0.9).abs() < 1e-9);
    model.step(&mut state, n(0.0), n(7.0), n(0.0));
    assert!((state.bands[0].snowpack.0 - (18.0 - 3.5)).abs() < 1e-9);
    // Far below the reference the gradient cannot make precipitation negative.
    let low = ElevationBands::new(vec![band(0.0, 1.0)], n(3000.0));
    let model = HbvBands::new(params(), low).unwrap();
    let mut state = model.initial_state();
    model.step(&mut state, n(10.0), n(-50.0), n(0.0));
    assert_eq!(state.bands[0].snowpack, n(0.0));
}

#[test]
fn banded_model_names_what_it_rejects() {
    let reject = |bands: ElevationBands<N>| HbvBands::new(params(), bands).unwrap_err().message();
    assert_eq!(
        reject(ElevationBands::new(vec![], n(1500.0))),
        "invalid parameter `bands`: at least one elevation band is required"
    );
    assert_eq!(
        reject(ElevationBands::new(
            vec![band(1000.0, 0.5), band(2000.0, 0.25)],
            n(1500.0)
        )),
        "invalid parameter `bands`: area fractions must sum to 1 (got Some(0.75))"
    );
    assert_eq!(
        reject(ElevationBands::new(
            vec![band(1000.0, 1.5), band(2000.0, -0.5)],
            n(1500.0)
        )),
        "invalid parameter `bands`: band 1: negative fraction or non-finite elevation"
    );
    assert_eq!(
        reject(ElevationBands::new(
            vec![band(f64::INFINITY, 1.0)],
            n(1500.0)
        )),
        "invalid parameter `bands`: band 0: negative fraction or non-finite elevation"
    );
    let mut steep = three_bands();
    steep.tcalt = n(f64::NAN);
    assert_eq!(
        reject(steep),
        "invalid parameter `bands`: tcalt/pcalt must be finite"
    );
    let mut prm = params();
    prm.fc = n(0.0);
    assert_eq!(
        HbvBands::new(prm, three_bands()).unwrap_err().message(),
        "invalid parameter `fc`: soil storage must be > 0 mm"
    );
    let model = HbvBands::new(params(), three_bands()).unwrap();
    assert_eq!(
        model
            .run(&ns(&[1.0]), &ns(&[1.0]), &ns(&[]))
            .unwrap_err()
            .message(),
        "invalid parameter `temp`: expected 1 steps, got 0"
    );
    assert_eq!(*model.params(), params());
    assert_eq!(*model.config(), three_bands());
}

#[test]
fn bands_validate_on_their_own() {
    assert!(three_bands().validate().is_ok());
    assert!(ElevationBands::new(vec![band(1000.0, 0.4)], n(0.0))
        .validate()
        .is_err());
    // A thousandth of slack is allowed.
    assert!(ElevationBands::new(vec![band(1000.0, 0.9995)], n(0.0))
        .validate()
        .is_ok());
}

#[test]
fn hypsometry_names_what_it_rejects() {
    let reject = |curve: &[(f64, f64)], k: usize| {
        ElevationBands::equal_area_from_hypsometry(&knots(curve), k, n(0.0))
            .unwrap_err()
            .message()
    };
    assert_eq!(
        reject(&[(0.0, 1.0), (1.0, 2.0)], 0),
        "invalid parameter `n`: need at least one band"
    );
    assert_eq!(
        reject(&[(0.0, 1.0)], 2),
        "invalid parameter `curve`: hypsometric curve needs at least two knots"
    );
    assert_eq!(
        reject(&[(0.5, 1.0), (0.4, 2.0)], 2),
        "invalid parameter `curve`: knots must be sorted with non-decreasing fraction and elevation"
    );
}

#[test]
fn elevations_are_interpolated_and_clamped() {
    let curve = knots(&[(0.4, 100.0), (0.6, 300.0)]);
    let eb = ElevationBands::equal_area_from_hypsometry(&curve, 4, n(7.0)).unwrap();
    let z: Vec<f64> = eb.bands.iter().map(|b| b.elevation.0).collect();
    // Midpoints 1/8, 3/8, 5/8, 7/8 all lie outside the knots.
    assert_eq!(z, vec![100.0, 100.0, 300.0, 300.0]);
    assert_eq!(eb.reference_elevation, n(7.0));
    assert_eq!(eb.tcalt, n(0.6));
    assert_eq!(eb.pcalt, n(0.1));
    let eb = ElevationBands::equal_area_from_hypsometry(&curve, 1, n(7.0)).unwrap();
    assert!((eb.bands[0].elevation.0 - 200.0).abs() < 1e-9);
}

#[test]
fn warm_run_needs_no_temperature() {
    let model = Hbv::new(params()).unwrap();
    let (p, pet, _) = synthetic_forcing(300);
    let (p, pet) = (ns(&p), ns(&pet));
    let temp = vec![n(12.0); 300];
    assert_eq!(
        model.run(&p, &pet, Some(&temp)).unwrap(),
        model.run(&p, &pet, None).unwrap()
    );
}

#[test]
fn order_and_splitting_of_bands_do_not_matter() {
    let (p, pet, temp) = synthetic_forcing(400);
    let (p, pet, temp) = (ns(&p), ns(&pet), ns(&temp));
    let discharge = |bands: Vec<ElevationBand<N>>| {
        vs(&HbvBands::new(params(), ElevationBands::new(bands, n(2000.0)))
            .unwrap()
            .run(&p, &pet, &temp)
            .unwrap())
    };
    let whole = discharge(vec![band(1000.0, 0.25), band(2500.0, 0.75)]);
    let turned = discharge(vec![band(2500.0, 0.75), band(1000.0, 0.25)]);
    let cut = discharge(vec![band(1000.0, 0.25), band(2500.0, 0.5), band(2500.0, 0.25)]);
    for i in 0..whole.len() {
        assert!((whole[i] - turned[i]).abs() < 1e-9);
        assert!((whole[i] - cut[i]).abs() < 1e-9);
    }
}
