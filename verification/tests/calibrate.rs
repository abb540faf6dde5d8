//! Tests of calibration. The engine of these tests is a small seeded search in
//! the manner of DDS.
use num_traits::Float;
use rainflow::bands::ElevationBands;
use rainflow::calibrate::{
    calibrate_gr4j, calibrate_hbv, calibrate_hbv_bands, count_value, dds_maximize,
    gr4j_default_bounds,
    hbv_default_bounds, hbv_params_from_vector, sce_maximize, DdsConfig, DdsResult, Gr4jProblem,
    HbvProblem, Objective, Optimizer, SceConfig, Target,
};
use rainflow::metrics::{kge, log_nse, nse};
use rainflow::number::{Arith, Scalar};
use rainflow::{Gr4j, Gr4jParams, Hbv, HbvBands, HbvParams};

/// A machine number for the models to compute with.
#[derive(Debug, Clone, Copy, PartialEq, PartialOrd)]
struct Num<T>(T);

impl<T: Float> Arith for Num<T> {}

impl<T: Float> Scalar for Num<T> {
    fn ratio(num: i64, den: i64) -> Self {
        Num(T::from(num as f64 / den as f64).unwrap())
    }
    fn from_usize(n: usize) -> Self {
        Num(T::from(n).unwrap())
    }
    fn nan() -> Self {
        Num(T::nan())
    }
    fn add(self, other: Self) -> Self {
        Num(self.0 + other.0)
    }
    fn sub(self, other: Self) -> Self {
        Num(self.0 - other.0)
    }
    fn mul(self, other: Self) -> Self {
        Num(self.0 * other.0)
    }
    fn div(self, other: Self) -> Self {
        Num(self.0 / other.0)
    }
    fn min(self, other: Self) -> Self {
        Num(self.0.min(other.0))
    }
    fn max(self, other: Self) -> Self {
        Num(self.0.max(other.0))
    }
    fn abs(self) -> Self {
        Num(self.0.abs())
    }
    fn powf(self, exponent: Self) -> Self {
        Num(self.0.powf(exponent.0))
    }
    fn powi(self, exponent: i32) -> Self {
        Num(self.0.powi(exponent))
    }
    fn sqrt(self) -> Self {
        Num(self.0.sqrt())
    }
    fn ln(self) -> Self {
        Num(self.0.ln())
    }
    fn tanh(self) -> Self {
        Num(self.0.tanh())
    }
    fn less_than(self, other: Self) -> bool {
        self.0 < other.0
    }
    fn at_most(self, other: Self) -> bool {
        self.0 <= other.0
    }
    fn equal_to(self, other: Self) -> bool {
        self.0 == other.0
    }
    fn is_nan(self) -> bool {
        self.0.is_nan()
    }
    fn is_finite(self) -> bool {
        self.0.is_finite()
    }
    fn ceil_to_usize(self) -> Option<usize> {
        self.0.ceil().to_usize()
    }
    fn render(self) -> String {
        format!("{:?}", self.0.to_f64())
    }
}

type N = Num<f64>;

fn n(v: f64) -> N {
    Num(v)
}

fn ns(v: &[f64]) -> Vec<N> {
    v.iter().map(|&x| Num(x)).collect()
}

fn vs(v: &[N]) -> Vec<f64> {
    v.iter().map(|x| x.0).collect()
}

/// Deterministic synthetic forcing (LCG), winter-rain regime.
fn synthetic_forcing(n: usize) -> (Vec<f64>, Vec<f64>) {
    let mut seed: u64 = 42;
    let mut next = move || {
        seed = seed
            .wrapping_mul(6364136223846793005)
            .wrapping_add(1442695040888963407);
        (seed >> 33) as f64 / (1u64 << 31) as f64
    };
    let mut p = Vec::with_capacity(n);
    let mut pet = Vec::with_capacity(n);
    for i in 0..n {
        let doy = (i % 365) as f64;
        let wet = if (120.0..270.0).contains(&doy) {
            0.55
        } else {
            0.15
        };
        p.push(if next() < wet {
            -12.0 * (1.0 - next()).ln()
        } else {
            0.0
        });
        pet.push((3.5 + 2.5 * (2.0 * std::f64::consts::PI * (doy - 15.0) / 365.25).sin()).max(0.1));
    }
    (p, pet)
}

/// SplitMix64.
fn draw(seed: &mut u64) -> f64 {
    *seed = seed.wrapping_add(0x9E3779B97F4A7C15);
    let mut z = *seed;
    z = (z ^ (z >> 30)).wrapping_mul(0xBF58476D1CE4E5B9);
    z = (z ^ (z >> 27)).wrapping_mul(0x94D049BB133111EB);
    ((z ^ (z >> 31)) >> 11) as f64 / (1u64 << 53) as f64
}

fn normal(seed: &mut u64) -> f64 {
    let (u, v) = (1.0 - draw(seed), draw(seed));
    (-2.0 * u.ln()).sqrt() * (2.0 * std::f64::consts::PI * v).cos()
}

/// A greedy search that perturbs fewer dimensions as the budget runs out.
fn search(
    bounds: &[(N, N)],
    init: Option<&[N]>,
    optimizer: Optimizer<N>,
    mut objective: impl FnMut(&[f64]) -> f64,
) -> DdsResult<N> {
    let (budget, r, mut seed) = match optimizer {
        Optimizer::Dds(c) => (c.max_iter, c.r.0, c.seed),
        Optimizer::Sce(c) => (c.max_iter, 0.2, c.seed),
    };
    let mut best: Vec<f64> = match init {
        Some(x0) => vs(x0),
        None => bounds
            .iter()
            .map(|b| b.0 .0 + draw(&mut seed) * (b.1 .0 - b.0 .0))
            .collect(),
    };
    let mut value = objective(&best);
    for i in 1..budget {
        let share = 1.0 - (i as f64).ln() / (budget as f64).ln();
        let forced = (draw(&mut seed) * bounds.len() as f64) as usize;
        let mut x = best.clone();
        for j in 0..bounds.len() {
            if j == forced || draw(&mut seed) < share {
                let (lo, hi) = (bounds[j].0 .0, bounds[j].1 .0);
                let mut v = x[j] + r * (hi - lo) * normal(&mut seed);
                if v < lo {
                    v = (lo + (lo - v)).min(hi);
                } else if v > hi {
                    v = (hi - (v - hi)).max(lo);
                }
                x[j] = v;
            }
        }
        let v = objective(&x);
        if v.is_finite() && (v >= value || !value.is_finite()) {
            best = x;
            value = v;
        }
    }
    DdsResult {
        params: ns(&best),
        value: n(value),
        evaluations: budget,
    }
}

/// The search as an engine for any objective.
fn find<O: FnMut(&[N]) -> N>(
    bounds: &[(N, N)],
    init: Option<&[N]>,
    optimizer: Optimizer<N>,
    mut target: Target<O>,
) -> DdsResult<N> {
    search(bounds, init, optimizer, |x| target.evaluate(&ns(x)).0)
}

fn pairs(bounds: &[(f64, f64)]) -> Vec<(N, N)> {
    bounds.iter().map(|&(lo, hi)| (n(lo), n(hi))).collect()
}

fn truth() -> Gr4j<N> {
    Gr4j::new(Gr4jParams {
        x1: n(350.0),
        x2: n(-1.5),
        x3: n(90.0),
        x4: n(1.7),
    })
    .unwrap()
}

#[test]
fn dds_finds_the_sphere_optimum() {
    // Maximize -(x-3)^2 - (y+1)^2 on [-10, 10]^2; optimum at (3, -1).
    let bounds = pairs(&[(-10.0, 10.0), (-10.0, 10.0)]);
    let config = DdsConfig {
        max_iter: 2000,
        ..Default::default()
    };
    let objective = |x: &[N]| n(-(x[0].0 - 3.0).powi(2) - (x[1].0 + 1.0).powi(2));
    let res = dds_maximize(&bounds, None, &config, objective, find)
    .unwrap();
    assert!(res.value.0 > -1e-2, "objective {}", res.value.0);
    assert!((res.params[0].0 - 3.0).abs() < 0.1);
    assert!((res.params[1].0 + 1.0).abs() < 0.1);
    assert_eq!(res.evaluations, 2000);
}

#[test]
fn dds_is_reproducible_for_a_seed() {
    let bounds = pairs(&[(-5.0, 5.0); 3]);
    let config = DdsConfig::default();
    let f = |x: &[N]| n(-vs(x).iter().map(|v| v * v).sum::<f64>());
    let a = dds_maximize(&bounds, None, &config, f, find).unwrap();
    let b = dds_maximize(&bounds, None, &config, f, find).unwrap();
    assert_eq!(a.params, b.params);
    assert_eq!(a.value, b.value);
}

#[test]
fn dds_respects_bounds() {
    let bounds = pairs(&[(0.0, 1.0), (10.0, 20.0)]);
    let config = DdsConfig {
        max_iter: 500,
        ..Default::default()
    };
    let objective = |x: &[N]| {
        let x = vs(x);
        assert!((0.0..=1.0).contains(&x[0]), "x0 out of bounds: {}", x[0]);
        assert!((10.0..=20.0).contains(&x[1]), "x1 out of bounds: {}", x[1]);
        n(0.0)
    };
    dds_maximize(&bounds, None, &config, objective, find)
    .unwrap();
}

/// An engine that must not be called.
fn never<O>(_: &[(N, N)], _: Option<&[N]>, _: Optimizer<N>, _: O) -> DdsResult<N> {
    panic!("a rejected search must not start")
}

#[test]
fn dds_rejects_bad_configuration() {
    let f = |_: &[N]| n(0.0);
    let default = DdsConfig::default();
    assert!(dds_maximize(&[], None, &default, f, never).is_err());
    assert!(dds_maximize(&pairs(&[(1.0, 0.0)]), None, &default, f, never).is_err());
    let bad_iter = DdsConfig {
        max_iter: 1,
        ..Default::default()
    };
    assert!(dds_maximize(&pairs(&[(0.0, 1.0)]), None, &bad_iter, f, never).is_err());
    let init = ns(&[0.5, 0.5]);
    assert!(dds_maximize(&pairs(&[(0.0, 1.0)]), Some(&init), &default, f, never).is_err());
}

#[test]
fn calibration_recovers_a_synthetic_truth() {
    // Generate qobs with known parameters; the search must reach NSE of about 1.
    let (p, pet) = synthetic_forcing(1500);
    let (p, pet) = (ns(&p), ns(&pet));
    let qobs = truth().run(&p, &pet).unwrap();

    let opt = Optimizer::Dds(DdsConfig {
        max_iter: 1500,
        ..Default::default()
    });
    let cal = calibrate_gr4j(
        &p,
        &pet,
        &qobs,
        365,
        Objective::Nse,
        &gr4j_default_bounds(),
        &opt,
        |b, i, o, problem| search(b, i, o, |x| problem.evaluate(&ns(x)).0),
    )
    .unwrap();
    assert!(cal.value.0 > 0.95, "calibrated NSE too low: {}", cal.value.0);
}

#[test]
fn sce_finds_the_sphere_optimum() {
    // Same surface as the DDS test; the search should also locate (3, -1).
    let bounds = pairs(&[(-10.0, 10.0), (-10.0, 10.0)]);
    let config = SceConfig {
        complexes: 3,
        max_iter: 3000,
        seed: 42,
    };
    let objective = |x: &[N]| n(-(x[0].0 - 3.0).powi(2) - (x[1].0 + 1.0).powi(2));
    let res = sce_maximize(&bounds, &config, objective, find).unwrap();
    assert!(res.value.0 > -1e-2, "objective {}", res.value.0);
    assert!((res.params[0].0 - 3.0).abs() < 0.1);
    assert!((res.params[1].0 + 1.0).abs() < 0.1);
}

#[test]
fn sce_is_reproducible_and_respects_bounds() {
    let bounds = pairs(&[(0.0, 1.0), (10.0, 20.0), (-5.0, 5.0)]);
    let config = SceConfig::default();
    let f = |x: &[N]| {
        let x = vs(x);
        assert!((0.0..=1.0).contains(&x[0]) && (10.0..=20.0).contains(&x[1]));
        n(-x.iter().map(|v| v * v).sum::<f64>())
    };
    let a = sce_maximize(&bounds, &config, f, find).unwrap();
    let b = sce_maximize(&bounds, &config, f, find).unwrap();
    assert_eq!(a.params, b.params);
    assert_eq!(a.value, b.value);
}

#[test]
fn sce_rejects_bad_configuration() {
    let f = |_: &[N]| n(0.0);
    assert!(sce_maximize(&[], &SceConfig::default(), f, never).is_err());
    assert!(sce_maximize(&pairs(&[(1.0, 0.0)]), &SceConfig::default(), f, never).is_err());
    // Budget below the initial population must be rejected.
    let tiny = SceConfig {
        complexes: 4,
        max_iter: 5,
        seed: 1,
    };
    assert!(sce_maximize(&pairs(&[(0.0, 1.0)]), &tiny, f, never).is_err());
}

#[test]
fn dds_and_sce_agree_on_gr4j_calibration() {
    let (p, pet) = synthetic_forcing(1500);
    let (p, pet) = (ns(&p), ns(&pet));
    let qobs = truth().run(&p, &pet).unwrap();
    let sce = Optimizer::Sce(SceConfig {
        complexes: 4,
        max_iter: 4000,
        seed: 42,
    });
    let cal = calibrate_gr4j(
        &p,
        &pet,
        &qobs,
        365,
        Objective::Nse,
        &gr4j_default_bounds(),
        &sce,
        |b, i, o, problem| search(b, i, o, |x| problem.evaluate(&ns(x)).0),
    )
    .unwrap();
    assert!(
        cal.value.0 > 0.95,
        "SCE-UA calibrated NSE too low: {}",
        cal.value.0
    );
}

fn hbv_truth() -> HbvParams<N> {
    HbvParams {
        tt: n(0.0),
        cfmax: n(3.0),
        sfcf: n(1.0),
        cfr: n(0.05),
        cwh: n(0.1),
        fc: n(250.0),
        lp: n(0.7),
        beta: n(2.0),
        k0: n(0.3),
        k1: n(0.1),
        k2: n(0.01),
        uzl: n(20.0),
        perc: n(2.0),
        maxbas: n(2.5),
    }
}

#[test]
fn hbv_calibration_recovers_a_synthetic_truth() {
    let (p, pet) = synthetic_forcing(1500);
    let (p, pet) = (ns(&p), ns(&pet));
    let qobs = Hbv::new(hbv_truth()).unwrap().run(&p, &pet, None).unwrap();

    let opt = Optimizer::Dds(DdsConfig {
        max_iter: 2000,
        ..Default::default()
    });
    let cal = calibrate_hbv(
        &p,
        &pet,
        None,
        &qobs,
        365,
        Objective::Nse,
        &opt,
        |b, i, o, problem| search(b, i, o, |x| problem.evaluate(&ns(x)).0),
    )
    .unwrap();
    assert!(cal.value.0 > 0.9, "calibrated NSE too low: {}", cal.value.0);
}

#[test]
fn searches_name_what_they_reject() {
    let f = |_: &[N]| n(0.0);
    let unit = pairs(&[(0.0, 1.0)]);
    let dds = |bounds: &[(N, N)], init: Option<&[N]>, config: DdsConfig<N>| {
        dds_maximize(bounds, init, &config, f, never)
            .unwrap_err()
            .message()
    };
    assert_eq!(
        dds(&[], None, DdsConfig::default()),
        "invalid parameter `bounds`: at least one parameter is required"
    );
    assert_eq!(
        dds(
            &pairs(&[(0.0, 1.0), (2.0, 2.0)]),
            None,
            DdsConfig::default()
        ),
        "invalid parameter `bounds`: dimension 1: lower bound must be < upper bound"
    );
    assert_eq!(
        dds(&pairs(&[(0.0, f64::NAN)]), None, DdsConfig::default()),
        "invalid parameter `bounds`: dimension 0: lower bound must be < upper bound"
    );
    assert_eq!(
        dds(&unit, Some(&ns(&[0.1, 0.2])), DdsConfig::default()),
        "invalid parameter `init`: expected 1 values, got 2"
    );
    let config = |max_iter: usize, r: f64| DdsConfig {
        max_iter,
        r: n(r),
        seed: 1,
    };
    assert_eq!(
        dds(&unit, None, config(1, 0.2)),
        "invalid parameter `max_iter`: iteration budget must be >= 2"
    );
    for r in [0.0, -0.1, 1.5, f64::NAN] {
        assert_eq!(
            dds(&unit, None, config(2, r)),
            "invalid parameter `r`: perturbation fraction must be in (0, 1]"
        );
    }
    let sce = |complexes: usize, max_iter: usize| {
        sce_maximize(
            &unit,
            &SceConfig {
                complexes,
                max_iter,
                seed: 1,
            },
            f,
            never,
        )
        .unwrap_err()
        .message()
    };
    assert_eq!(
        sce(0, 100),
        "invalid parameter `complexes`: need at least one complex"
    );
    assert_eq!(
        sce(4, 11),
        "invalid parameter `max_iter`: budget must be >= initial population size (12)"
    );
}

/// An engine that hands back fixed values, whatever the search.
fn fixed(values: &[f64]) -> DdsResult<N> {
    DdsResult {
        params: ns(values),
        value: n(0.75),
        evaluations: 17,
    }
}

#[test]
fn engine_gets_what_the_search_asks_for() {
    let unit = pairs(&[(0.0, 1.0)]);
    let init = ns(&[0.5]);
    let config = DdsConfig {
        max_iter: 2,
        r: n(1.0),
        seed: 9,
    };
    let double = |x: &[N]| n(2.0 * x[0].0);
    let r = dds_maximize(&unit, Some(&init), &config, double, |b, i, o, mut target| {
        assert_eq!(b.to_vec(), pairs(&[(0.0, 1.0)]));
        assert_eq!(i.map(vs), Some(vec![0.5]));
        assert!(matches!(o, Optimizer::Dds(c) if c.max_iter == 2 && c.seed == 9));
        assert_eq!(target.evaluate(&ns(&[4.0])), n(8.0));
        fixed(&[0.25])
    })
    .unwrap();
    assert_eq!((vs(&r.params), r.value, r.evaluations), (vec![0.25], n(0.75), 17));
    let sce = Optimizer::Sce(SceConfig {
        complexes: 4,
        max_iter: 12,
        seed: 3,
    });
    let r = sce
        .maximize(&unit, double, |b, i, o, mut target| {
            assert_eq!(b.len(), 1);
            assert!(i.is_none());
            assert!(matches!(o, Optimizer::Sce(c) if c.complexes == 4 && c.seed == 3));
            assert_eq!(target.evaluate(&ns(&[4.0])), n(8.0));
            fixed(&[0.5])
        })
        .unwrap();
    assert_eq!(vs(&r.params), vec![0.5]);
}

#[test]
fn engine_sees_values_that_are_not_finite_as_undefined() {
    let unit = pairs(&[(0.0, 1.0)]);
    let mut calls = 0;
    // An objective that counts its calls, infinite on the right half.
    let objective = |x: &[N]| {
        calls += 1;
        n(if x[0].0 > 0.5 { f64::INFINITY } else { x[0].0 })
    };
    let seen = |target: &mut dyn FnMut(f64) -> f64| {
        assert_eq!(target(0.25), 0.25);
        assert!(target(0.75).is_nan());
    };
    let config = DdsConfig::default();
    dds_maximize(&unit, None, &config, objective, |_, _, _, mut t| {
        seen(&mut |x| t.evaluate(&ns(&[x])).0);
        fixed(&[0.25])
    })
    .unwrap();
    assert_eq!(calls, 2);
    let steep = |x: &[N]| n(if x[0].0 > 0.5 { f64::NEG_INFINITY } else { x[0].0 });
    sce_maximize(&unit, &SceConfig::default(), steep, |_, _, _, mut t| {
        seen(&mut |x| t.evaluate(&ns(&[x])).0);
        fixed(&[0.25])
    })
    .unwrap();
    // A search over a half that is rejected stays in the other.
    let left = |x: &[N]| n(if x[0].0 > 0.5 { f64::INFINITY } else { x[0].0 });
    let r = dds_maximize(&unit, None, &config, left, find).unwrap();
    assert!(r.params[0].0 <= 0.5 && r.value.0 > 0.49);
}

#[test]
fn default_settings() {
    let d = DdsConfig::<N>::default();
    assert_eq!((d.max_iter, d.r, d.seed), (1000, n(0.2), 42));
    let s = SceConfig::default();
    assert_eq!((s.complexes, s.max_iter, s.seed), (4, 10_000, 42));
    let b = gr4j_default_bounds::<N>();
    assert_eq!(
        b.to_vec(),
        pairs(&[(1.0, 2500.0), (-5.0, 5.0), (1.0, 1000.0), (0.5, 10.0)])
    );
    let ground = [
        (50.0, 700.0),
        (0.3, 1.0),
        (1.0, 6.0),
        (0.05, 0.99),
        (0.01, 0.5),
        (0.001, 0.2),
        (0.0, 100.0),
        (0.0, 10.0),
        (1.0, 7.0),
    ];
    assert_eq!(hbv_default_bounds::<N>(false), pairs(&ground));
    let mut snow = vec![(-3.0, 4.0), (0.5, 10.0), (0.4, 2.0)];
    snow.extend(ground);
    assert_eq!(hbv_default_bounds::<N>(true), pairs(&snow));
}

#[test]
fn corners_of_the_default_bounds_are_accepted() {
    let b = gr4j_default_bounds::<N>();
    for pick in [0, 1] {
        let x: Vec<N> = b.iter().map(|p| if pick == 0 { p.0 } else { p.1 }).collect();
        assert!(Gr4j::new(Gr4jParams {
            x1: x[0],
            x2: x[1],
            x3: x[2],
            x4: x[3]
        })
        .is_ok());
        for with_snow in [false, true] {
            let x: Vec<N> = hbv_default_bounds::<N>(with_snow)
                .iter()
                .map(|p| if pick == 0 { p.0 } else { p.1 })
                .collect();
            assert!(Hbv::new(hbv_params_from_vector(&x, with_snow)).is_ok());
        }
    }
}

#[test]
fn vectors_read_as_parameters() {
    let x: Vec<N> = (1..=12).map(|v| n(v as f64)).collect();
    let dry = hbv_params_from_vector(&x[..9], false);
    assert_eq!((dry.tt, dry.cfmax, dry.sfcf), (n(0.0), n(3.0), n(1.0)));
    assert_eq!((dry.cfr, dry.cwh), (n(0.05), n(0.1)));
    assert_eq!((dry.fc, dry.maxbas), (n(1.0), n(9.0)));
    let snowy = hbv_params_from_vector(&x, true);
    assert_eq!((snowy.tt, snowy.cfmax, snowy.sfcf), (n(1.0), n(2.0), n(3.0)));
    assert_eq!((snowy.fc, snowy.k0, snowy.maxbas), (n(4.0), n(7.0), n(12.0)));
}

#[test]
fn objectives_evaluate_their_metric() {
    let (obs, sim) = (ns(&[1.0, 2.5, 4.0]), ns(&[1.5, 2.0, 3.0]));
    assert_eq!(Objective::Nse.evaluate(&obs, &sim), nse(&obs, &sim).ok());
    assert_eq!(Objective::Kge.evaluate(&obs, &sim), kge(&obs, &sim).ok());
    assert_eq!(
        Objective::LogNse.evaluate(&obs, &sim),
        log_nse(&obs, &sim).ok()
    );
    assert_eq!(Objective::Nse.evaluate(&obs[..1], &sim[..1]), None);
}

#[test]
fn candidates_are_scored_after_the_warmup() {
    let (p, pet) = synthetic_forcing(60);
    let (p, pet) = (ns(&p), ns(&pet));
    let qobs = truth().run(&p, &pet).unwrap();
    let problem = Gr4jProblem {
        precip: &p,
        pet: &pet,
        qobs: &qobs,
        warmup: 20,
        objective: Objective::Kge,
    };
    // The truth itself scores one, a candidate out of range nothing.
    let best = problem.evaluate(&ns(&[350.0, -1.5, 90.0, 1.7])).0;
    assert!((best - 1.0).abs() < 1e-12);
    let x = ns(&[200.0, 0.5, 60.0, 2.3]);
    let qsim = Gr4j::new(Gr4jParams {
        x1: x[0],
        x2: x[1],
        x3: x[2],
        x4: x[3],
    })
    .unwrap()
    .run(&p, &pet)
    .unwrap();
    assert_eq!(
        problem.evaluate(&x),
        kge(&qobs[20..], &qsim[20..]).unwrap()
    );
    assert!(problem.evaluate(&ns(&[0.0, -1.5, 90.0, 1.7])).0.is_nan());
    // One step left is not enough for a metric.
    let short = Gr4jProblem {
        warmup: 59,
        ..problem
    };
    assert!(short.evaluate(&x).0.is_nan());
}

#[test]
fn hbv_candidates_need_a_matching_temperature() {
    let (p, pet) = synthetic_forcing(60);
    let (p, pet) = (ns(&p), ns(&pet));
    let temp = vec![n(5.0); 60];
    let qobs = Hbv::new(hbv_truth())
        .unwrap()
        .run(&p, &pet, Some(&temp))
        .unwrap();
    let x = ns(&[
        0.0, 3.0, 1.0, 250.0, 0.7, 2.0, 0.3, 0.1, 0.01, 20.0, 2.0, 2.5,
    ]);
    let problem = HbvProblem {
        precip: &p,
        pet: &pet,
        temp: Some(&temp),
        qobs: &qobs,
        warmup: 10,
        objective: Objective::Nse,
    };
    assert_eq!(problem.evaluate(&x), n(1.0));
    let short = HbvProblem {
        temp: Some(&temp[1..]),
        ..problem
    };
    assert!(short.evaluate(&x).0.is_nan());
}

#[test]
fn calibrations_name_what_they_reject() {
    let (one, two) = (ns(&[1.0]), ns(&[1.0, 2.0]));
    let opt = Optimizer::Dds(DdsConfig::default());
    let b = gr4j_default_bounds();
    let gr4j = |p: &[N], e: &[N], q: &[N], w: usize| {
        calibrate_gr4j(p, e, q, w, Objective::Nse, &b, &opt, never)
            .unwrap_err()
            .message()
    };
    assert_eq!(
        gr4j(&two, &one, &two, 0),
        "forcing series length mismatch: precip has 2 steps, pet has 1"
    );
    assert_eq!(
        gr4j(&two, &two, &one, 0),
        "invalid parameter `qobs`: expected 2 steps, got 1"
    );
    assert_eq!(
        gr4j(&two, &two, &two, 2),
        "invalid parameter `warmup`: warm-up (2) must be shorter than the series (2)"
    );
    let hbv = |p: &[N], e: &[N], q: &[N], w: usize| {
        calibrate_hbv(p, e, None, q, w, Objective::Nse, &opt, never)
            .unwrap_err()
            .message()
    };
    assert_eq!(
        hbv(&two, &one, &two, 0),
        "forcing series length mismatch: precip has 2 steps, pet has 1"
    );
    assert_eq!(
        hbv(&two, &two, &one, 0),
        "invalid parameter `qobs`: expected 2 steps, got 1"
    );
    assert_eq!(
        hbv(&two, &two, &two, 5),
        "invalid parameter `warmup`: warm-up (5) must be shorter than the series (2)"
    );
    let geometry = ElevationBands::from_quantiles(n(1.0), n(2.0), n(3.0), 2).unwrap();
    let banded = |p: &[N], e: &[N], t: &[N], q: &[N], w: usize| {
        calibrate_hbv_bands(p, e, t, &geometry, q, w, Objective::Nse, &opt, never)
            .unwrap_err()
            .message()
    };
    assert_eq!(
        banded(&two, &one, &two, &two, 0),
        "forcing series length mismatch: precip has 2 steps, pet has 1"
    );
    assert_eq!(
        banded(&two, &two, &one, &two, 0),
        "invalid parameter `qobs/temp`: expected 2 steps, got qobs=2 temp=1"
    );
    assert_eq!(
        banded(&two, &two, &two, &two, 2),
        "invalid parameter `warmup`: warm-up (2) must be shorter than the series (2)"
    );
    let few = Optimizer::Sce(SceConfig {
        complexes: 4,
        max_iter: 35,
        seed: 1,
    });
    assert_eq!(
        calibrate_gr4j(&two, &two, &two, 0, Objective::Nse, &b, &few, never)
            .unwrap_err()
            .message(),
        "invalid parameter `max_iter`: budget must be >= initial population size (36)"
    );
}

#[test]
fn calibrations_report_what_the_engine_found() {
    let two = ns(&[1.0, 2.0]);
    let opt = Optimizer::Dds(DdsConfig::default());
    let cal = calibrate_gr4j(
        &two,
        &two,
        &two,
        0,
        Objective::Kge,
        &gr4j_default_bounds(),
        &opt,
        |b, i, _, problem| {
            assert_eq!(b.to_vec(), gr4j_default_bounds::<N>().to_vec());
            assert!(i.is_none());
            assert_eq!(problem.objective, Objective::Kge);
            fixed(&[10.0, 20.0, 30.0, 40.0])
        },
    )
    .unwrap();
    assert_eq!((cal.params.x1, cal.params.x4), (n(10.0), n(40.0)));
    assert_eq!((cal.value, cal.evaluations), (n(0.75), 17));

    let x: Vec<f64> = (1..=14).map(|v| v as f64).collect();
    let cal = calibrate_hbv(
        &two,
        &two,
        Some(&two),
        &two,
        0,
        Objective::Nse,
        &opt,
        |b, _, _, _| {
            assert_eq!(b.to_vec(), hbv_default_bounds::<N>(true));
            fixed(&x[..12])
        },
    )
    .unwrap();
    assert_eq!((cal.params.tt, cal.params.maxbas), (n(1.0), n(12.0)));

    let geometry = ElevationBands::from_quantiles(n(1.0), n(2.0), n(3.0), 2).unwrap();
    let cal = calibrate_hbv_bands(
        &two,
        &two,
        &two,
        &geometry,
        &two,
        0,
        Objective::Nse,
        &opt,
        |b, _, _, _| {
            assert_eq!(b.len(), 14);
            assert_eq!(b[12..].to_vec(), pairs(&[(0.0, 1.2), (0.0, 0.3)]));
            fixed(&x)
        },
    )
    .unwrap();
    assert_eq!((cal.bands.tcalt, cal.bands.pcalt), (n(13.0), n(14.0)));
    assert_eq!(cal.bands.bands, geometry.bands);
    assert_eq!(cal.params.tt, n(1.0));
}

#[test]
fn banded_candidates_carry_their_lapse_rates() {
    let (p, pet) = synthetic_forcing(80);
    let (p, pet) = (ns(&p), ns(&pet));
    let temp: Vec<N> = (0..80).map(|i| n((i % 9) as f64 - 3.0)).collect();
    let mut geometry = ElevationBands::from_quantiles(n(100.0), n(900.0), n(2500.0), 3).unwrap();
    geometry.tcalt = n(0.5);
    geometry.pcalt = n(0.05);
    let qobs = HbvBands::new(hbv_truth(), geometry.clone())
        .unwrap()
        .run(&p, &pet, &temp)
        .unwrap();
    let opt = Optimizer::Dds(DdsConfig::default());
    let x = ns(&[
        0.0, 3.0, 1.0, 250.0, 0.7, 2.0, 0.3, 0.1, 0.01, 20.0, 2.0, 2.5, 0.5, 0.05,
    ]);
    calibrate_hbv_bands(
        &p,
        &pet,
        &temp,
        &geometry,
        &qobs,
        10,
        Objective::Nse,
        &opt,
        |_, _, _, problem| {
            assert_eq!(problem.evaluate(&x), n(1.0));
            let mut steep = x.clone();
            steep[12] = n(1.0);
            assert!(problem.evaluate(&steep).0 < 1.0);
            steep[12] = n(f64::NAN);
            assert!(problem.evaluate(&steep).0.is_nan());
            fixed(&vs(&x))
        },
    )
    .unwrap();
}

#[test]
fn values_that_are_not_finite_are_rejected() {
    assert_eq!(count_value(n(-3.5)), n(-3.5));
    for v in [f64::NAN, f64::INFINITY, f64::NEG_INFINITY] {
        assert!(count_value(n(v)).0.is_nan());
    }
    // A spread too small to divide by makes the efficiency infinite.
    let (p, pet) = (ns(&[1e150, 0.0]), ns(&[0.0, 0.0]));
    let qobs = ns(&[1.0, 1.0 + f64::EPSILON]);
    let problem = Gr4jProblem {
        precip: &p,
        pet: &pet,
        qobs: &qobs,
        warmup: 0,
        objective: Objective::Nse,
    };
    let x = ns(&[350.0, 0.0, 90.0, 1.7]);
    let qsim = truth_without_exchange().run(&p, &pet).unwrap();
    assert!(nse(&qobs, &qsim).unwrap().0.is_infinite());
    assert!(problem.evaluate(&x).0.is_nan());
}

fn truth_without_exchange() -> Gr4j<N> {
    Gr4j::new(Gr4jParams {
        x1: n(350.0),
        x2: n(0.0),
        x3: n(90.0),
        x4: n(1.7),
    })
    .unwrap()
}

#[test]
fn warmup_observations_do_not_count() {
    let (p, pet) = synthetic_forcing(60);
    let (p, pet) = (ns(&p), ns(&pet));
    let qobs = truth().run(&p, &pet).unwrap();
    let mut other = qobs.clone();
    for q in &mut other[..20] {
        *q = n(f64::NAN);
    }
    let problem = |qobs| Gr4jProblem {
        precip: &p,
        pet: &pet,
        qobs,
        warmup: 20,
        objective: Objective::LogNse,
    };
    let x = ns(&[200.0, 0.5, 60.0, 2.3]);
    assert_eq!(problem(&qobs).evaluate(&x), problem(&other).evaluate(&x));
}
