//! Tests of the goodness-of-fit metrics.
use num_traits::Float;
use rainflow::metrics::{
    kge, kge_components, log_nse, nse, pbias, KgeComponents, MetricsError,
};
use rainflow::number::{Arith, Scalar};

/// A machine number for the models to compute with.
#[derive(Debug, Clone, Copy, PartialEq, PartialOrd)]
struct Num<T>(T);

impl<T: Float> Arith for Num<T> {}

impl<T: Float> Scalar for Num<T> {
    fn ratio(num: i64, den: i64) -> Self {
        Num(T::from(num as f64 / den as f64).unwrap())
    }
    fn from_usize(n: usize) -> Self {
        Num(T::from(n).unwrap())
    }
    fn nan() -> Self {
        Num(T::nan())
    }
    fn add(self, other: Self) -> Self {
        Num(self.0 + other.0)
    }
    fn sub(self, other: Self) -> Self {
        Num(self.0 - other.0)
    }
    fn mul(self, other: Self) -> Self {
        Num(self.0 * other.0)
    }
    fn div(self, other: Self) -> Self {
        Num(self.0 / other.0)
    }
    fn min(self, other: Self) -> Self {
        Num(self.0.min(other.0))
    }
    fn max(self, other: Self) -> Self {
        Num(self.0.max(other.0))
    }
    fn abs(self) -> Self {
        Num(self.0.abs())
    }
    fn powf(self, exponent: Self) -> Self {
        Num(self.0.powf(exponent.0))
    }
    fn powi(self, exponent: i32) -> Self {
        Num(self.0.powi(exponent))
    }
    fn sqrt(self) -> Self {
        Num(self.0.sqrt())
    }
    fn ln(self) -> Self {
        Num(self.0.ln())
    }
    fn tanh(self) -> Self {
        Num(self.0.tanh())
    }
    fn less_than(self, other: Self) -> bool {
        self.0 < other.0
    }
    fn at_most(self, other: Self) -> bool {
        self.0 <= other.0
    }
    fn equal_to(self, other: Self) -> bool {
        self.0 == other.0
    }
    fn is_nan(self) -> bool {
        self.0.is_nan()
    }
    fn is_finite(self) -> bool {
        self.0.is_finite()
    }
    fn ceil_to_usize(self) -> Option<usize> {
        self.0.ceil().to_usize()
    }
    fn render(self) -> String {
        format!("{:?}", self.0.to_f64())
    }
}

type N = Num<f64>;

fn n(v: f64) -> N {
    Num(v)
}

fn ns(v: &[f64]) -> Vec<N> {
    v.iter().map(|&x| Num(x)).collect()
}

const OBS: [f64; 6] = [1.0, 2.5, 4.0, 3.0, 2.0, 1.5];

#[test]
fn perfect_simulation_scores_perfectly() {
    let obs = ns(&OBS);
    assert!((nse(&obs, &obs).unwrap().0 - 1.0).abs() < 1e-12);
    assert!((kge(&obs, &obs).unwrap().0 - 1.0).abs() < 1e-12);
    assert!((log_nse(&obs, &obs).unwrap().0 - 1.0).abs() < 1e-12);
    assert!(pbias(&obs, &obs).unwrap().0.abs() < 1e-12);
}

#[test]
fn mean_simulation_gives_nse_zero() {
    let m = OBS.iter().sum::<f64>() / OBS.len() as f64;
    let sim = vec![n(m); OBS.len()];
    assert!(nse(&ns(&OBS), &sim).unwrap().0.abs() < 1e-12);
}

#[test]
fn scaled_simulation_gives_known_pbias_and_beta() {
    let sim: Vec<N> = OBS.iter().map(|&o| n(1.1 * o)).collect();
    let obs = ns(&OBS);
    assert!((pbias(&obs, &sim).unwrap().0 - 10.0).abs() < 1e-10);
    let c = kge_components(&obs, &sim).unwrap();
    assert!((c.beta.0 - 1.1).abs() < 1e-12);
    assert!((c.r.0 - 1.0).abs() < 1e-12);
    assert!((c.alpha.0 - 1.1).abs() < 1e-12);
}

#[test]
fn nan_observations_are_skipped() {
    let obs = ns(&[1.0, f64::NAN, 4.0, 3.0]);
    let sim = ns(&[1.0, 99.0, 4.0, 3.0]);
    assert!((nse(&obs, &sim).unwrap().0 - 1.0).abs() < 1e-12);
}

#[test]
fn errors_on_degenerate_input() {
    assert!(matches!(
        nse(&ns(&[1.0, 2.0]), &ns(&[1.0])),
        Err(MetricsError::LengthMismatch { .. })
    ));
    assert!(matches!(
        nse(&ns(&[2.0, 2.0, 2.0]), &ns(&[1.0, 2.0, 3.0])),
        Err(MetricsError::ZeroVariance)
    ));
    let nans = ns(&[f64::NAN, f64::NAN]);
    assert!(matches!(
        nse(&nans, &ns(&[1.0, 2.0])),
        Err(MetricsError::InsufficientData(0))
    ));
}

#[test]
fn known_values() {
    let (obs, sim) = (ns(&[1.0, 2.0, 3.0]), ns(&[2.0, 2.0, 2.0]));
    // Errors 1, 0, 1 against deviations 1, 0, 1.
    assert_eq!(nse(&obs, &sim).unwrap(), n(0.0));
    let sim = ns(&[1.0, 2.0, 5.0]);
    assert_eq!(nse(&obs, &sim).unwrap(), n(-1.0));
    assert!((pbias(&obs, &sim).unwrap().0 - 100.0 * 2.0 / 6.0).abs() < 1e-12);
    let c = kge_components(&obs, &sim).unwrap();
    let (mo, ms) = (2.0f64, 8.0 / 3.0f64);
    let var_s = (1.0 - ms).powi(2) + (2.0 - ms).powi(2) + (5.0 - ms).powi(2);
    assert!((c.beta.0 - ms / mo).abs() < 1e-12);
    assert!((c.alpha.0 - (var_s / 2.0).sqrt()).abs() < 1e-12);
    assert!((c.r.0 - 4.0 / (2.0 * var_s).sqrt()).abs() < 1e-12);
    assert_eq!(kge(&obs, &sim).unwrap(), c.kge());
}

#[test]
fn kge_combines_its_components() {
    let c = KgeComponents {
        r: n(1.0),
        alpha: n(4.0),
        beta: n(5.0),
    };
    assert_eq!(c.kge(), n(-4.0));
}

#[test]
fn log_nse_shifts_by_a_hundredth_of_the_mean() {
    let (obs, sim) = ([1.0, 2.0, 6.0], [1.5, 2.0, 4.0]);
    let eps = 0.03;
    let lo: Vec<f64> = obs.iter().map(|v: &f64| (v + eps).ln()).collect();
    let ls: Vec<f64> = sim.iter().map(|v: &f64| (v + eps).ln()).collect();
    let expected = nse(&ns(&lo), &ns(&ls)).unwrap().0;
    assert!((log_nse(&ns(&obs), &ns(&sim)).unwrap().0 - expected).abs() < 1e-12);
}

#[test]
fn gaps_count_for_no_metric() {
    let obs = ns(&[1.0, f64::NAN, 4.0, 3.0, 2.0]);
    let sim = ns(&[1.5, 99.0, 4.5, f64::INFINITY, 2.0]);
    let (o, s) = (ns(&[1.0, 4.0, 2.0]), ns(&[1.5, 4.5, 2.0]));
    assert_eq!(nse(&obs, &sim).unwrap(), nse(&o, &s).unwrap());
    assert_eq!(kge(&obs, &sim).unwrap(), kge(&o, &s).unwrap());
    assert_eq!(log_nse(&obs, &sim).unwrap(), log_nse(&o, &s).unwrap());
    assert_eq!(pbias(&obs, &sim).unwrap(), pbias(&o, &s).unwrap());
}

#[test]
fn efficiencies_are_at_most_one() {
    let (obs, sim) = (ns(&OBS), ns(&[3.0, -2.0, 8.0, 0.5, 2.0, 9.0]));
    assert!(nse(&obs, &sim).unwrap().0 <= 1.0);
    assert!(kge(&obs, &sim).unwrap().0 <= 1.0);
}

#[test]
fn overestimation_is_a_positive_bias() {
    assert!(pbias(&ns(&[1.0, 2.0]), &ns(&[1.0, 3.0])).unwrap().0 > 0.0);
    assert!(pbias(&ns(&[1.0, 2.0]), &ns(&[1.0, 1.0])).unwrap().0 < 0.0);
}

#[test]
fn metric_errors_have_messages() {
    assert_eq!(
        nse(&ns(&[1.0, 2.0]), &ns(&[1.0])).unwrap_err().message(),
        "series length mismatch: obs has 2 steps, sim has 1"
    );
    assert_eq!(
        kge(&ns(&[1.0, f64::NAN]), &ns(&[1.0, 1.0]))
            .unwrap_err()
            .message(),
        "need at least 2 valid (obs, sim) pairs, found 1"
    );
    assert_eq!(
        log_nse(&ns(&[2.0, 2.0]), &ns(&[1.0, 2.0]))
            .unwrap_err()
            .message(),
        "observed series has zero variance"
    );
    assert!(matches!(
        kge_components(&ns(&[-1.0, 1.0]), &ns(&[1.0, 2.0])),
        Err(MetricsError::ZeroVariance)
    ));
    assert_eq!(
        pbias(&ns(&[-1.0, 1.0]), &ns(&[1.0, 2.0]))
            .unwrap_err()
            .message(),
        "observed series sums to zero; relative bias is undefined"
    );
}

#[test]
fn log_nse_does_not_depend_on_the_unit() {
    let sim = [1.5, 2.0, 3.5, 3.0, 2.5, 1.0];
    let times = |v: &[f64]| v.iter().map(|x| n(86.4 * x)).collect::<Vec<N>>();
    let a = log_nse(&ns(&OBS), &ns(&sim)).unwrap().0;
    let b = log_nse(&times(&OBS), &times(&sim)).unwrap().0;
    assert!((a - b).abs() < 1e-12);
}
