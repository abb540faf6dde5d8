//! Tests of reaches, river networks and unit conversions.
use num_traits::Float;
use rainflow::number::{Arith, Scalar};
use rainflow::routing::{
    m3s_to_mm_per_day, mm_per_day_to_m3s, Muskingum, RiverNetwork, Subcatchment,
};

/// A machine number for the models to compute with.
#[derive(Debug, Clone, Copy, PartialEq, PartialOrd)]
struct Num<T>(T);

impl<T: Float> Arith for Num<T> {}

impl<T: Float> Scalar for Num<T> {
    fn ratio(num: i64, den: i64) -> Self {
        Num(T::from(num as f64 / den as f64).unwrap())
    }
    fn from_usize(n: usize) -> Self {
        Num(T::from(n).unwrap())
    }
    fn nan() -> Self {
        Num(T::nan())
    }
    fn add(self, other: Self) -> Self {
        Num(self.0 + other.0)
    }
    fn sub(self, other: Self) -> Self {
        Num(self.0 - other.0)
    }
    fn mul(self, other: Self) -> Self {
        Num(self.0 * other.0)
    }
    fn div(self, other: Self) -> Self {
        Num(self.0 / other.0)
    }
    fn min(self, other: Self) -> Self {
        Num(self.0.min(other.0))
    }
    fn max(self, other: Self) -> Self {
        Num(self.0.max(other.0))
    }
    fn abs(self) -> Self {
        Num(self.0.abs())
    }
    fn powf(self, exponent: Self) -> Self {
        Num(self.0.powf(exponent.0))
    }
    fn powi(self, exponent: i32) -> Self {
        Num(self.0.powi(exponent))
    }
    fn sqrt(self) -> Self {
        Num(self.0.sqrt())
    }
    fn ln(self) -> Self {
        Num(self.0.ln())
    }
    fn tanh(self) -> Self {
        Num(self.0.tanh())
    }
    fn less_than(self, other: Self) -> bool {
        self.0 < other.0
    }
    fn at_most(self, other: Self) -> bool {
        self.0 <= other.0
    }
    fn equal_to(self, other: Self) -> bool {
        self.0 == other.0
    }
    fn is_nan(self) -> bool {
        self.0.is_nan()
    }
    fn is_finite(self) -> bool {
        self.0.is_finite()
    }
    fn ceil_to_usize(self) -> Option<usize> {
        self.0.ceil().to_usize()
    }
    fn render(self) -> String {
        format!("{:?}", self.0.to_f64())
    }
}

type N = Num<f64>;

fn n(v: f64) -> N {
    Num(v)
}

fn ns(v: &[f64]) -> Vec<N> {
    v.iter().map(|&x| Num(x)).collect()
}

fn vs(v: &[N]) -> Vec<f64> {
    v.iter().map(|x| x.0).collect()
}

fn triangular_hydrograph(n: usize, peak_at: usize, peak: f64) -> Vec<f64> {
    (0..n)
        .map(|t| {
            if t <= peak_at {
                peak * t as f64 / peak_at as f64
            } else {
                (peak * (1.0 - (t - peak_at) as f64 / (n - peak_at) as f64)).max(0.0)
            }
        })
        .collect()
}

fn reach(k: f64, x: f64) -> Muskingum<N> {
    Muskingum::new(n(k), n(x)).unwrap()
}

fn node(local: &[f64], downstream: Option<usize>, reach: Option<Muskingum<N>>) -> Subcatchment<N> {
    Subcatchment {
        local_runoff: ns(local),
        downstream,
        reach,
    }
}

#[test]
fn coefficients_sum_to_one() {
    for (k, x) in [(2.0, 0.2), (5.0, 0.0), (1.5, 0.5), (10.0, 0.45)] {
        let (c0, c1, c2) = reach(k, x).coefficients(n(1.0));
        assert!((c0.0 + c1.0 + c2.0 - 1.0).abs() < 1e-12, "K={k} x={x}");
    }
}

#[test]
fn k_equals_dt_x_half_is_one_step_lag() {
    // K = dt, x = 0.5 => C1 = 1, C0 = C2 = 0: output is input lagged one
    // step (pure translation by one dt, a reach always transports).
    let m = reach(1.0, 0.5);
    let (c0, c1, c2) = m.coefficients(n(1.0));
    assert!(c0.0.abs() < 1e-12 && (c1.0 - 1.0).abs() < 1e-12 && c2.0.abs() < 1e-12);
    let inflow = triangular_hydrograph(40, 8, 50.0);
    let out = vs(&m.route(&ns(&inflow), n(1.0)));
    // out[0] is the steady-start seed; out[t] == inflow[t-1] thereafter.
    for t in 1..inflow.len() {
        assert!((out[t] - inflow[t - 1]).abs() < 1e-9, "t={t}");
    }
}

#[test]
fn linear_reservoir_attenuates_and_delays_peak() {
    // x = 0 is a linear reservoir: the routed peak is lower and later.
    let inflow = triangular_hydrograph(60, 10, 100.0);
    let out = vs(&reach(3.0, 0.0).route(&ns(&inflow), n(1.0)));
    let in_peak = inflow.iter().cloned().fold(0.0, f64::max);
    let (out_peak_idx, out_peak) =
        out.iter()
            .enumerate()
            .fold((0, 0.0), |(bi, bv), (i, &v)| if v > bv { (i, v) } else { (bi, bv) });
    assert!(
        out_peak < in_peak,
        "peak not attenuated: {out_peak} vs {in_peak}"
    );
    assert!(out_peak_idx > 10, "peak not delayed: idx {out_peak_idx}");
}

#[test]
fn routing_conserves_mass() {
    // A hydrograph returning to zero must conserve volume through routing.
    let inflow = triangular_hydrograph(200, 20, 50.0);
    for (k, x) in [(2.0, 0.2), (5.0, 0.1), (4.0, 0.0)] {
        let out = vs(&reach(k, x).route(&ns(&inflow), n(1.0)));
        let vin: f64 = inflow.iter().sum();
        let vout: f64 = out.iter().sum();
        // Small tail truncation only; volumes match closely.
        assert!(
            (vin - vout).abs() / vin < 0.02,
            "K={k} x={x}: {vin} vs {vout}"
        );
    }
}

#[test]
fn rejects_bad_parameters() {
    assert!(Muskingum::new(n(0.0), n(0.2)).is_err());
    assert!(Muskingum::new(n(-1.0), n(0.2)).is_err());
    assert!(Muskingum::new(n(2.0), n(-0.1)).is_err());
    assert!(Muskingum::new(n(2.0), n(0.6)).is_err());
}

#[test]
fn two_headwaters_into_outlet_sum_and_conserve() {
    // Nodes 0 and 1 drain into outlet 2. With pass-through reaches (no
    // routing) the outlet is exactly the sum of the three local series.
    let a = triangular_hydrograph(100, 10, 30.0);
    let b = triangular_hydrograph(100, 25, 20.0);
    let local_outlet = vec![1.0; 100];
    let nodes = vec![
        node(&a, Some(2), None),
        node(&b, Some(2), None),
        node(&local_outlet, None, None),
    ];
    let net = RiverNetwork::new(nodes, n(1.0)).unwrap();
    let out = vs(&net.route_to_outlet());
    let expected: Vec<f64> = (0..100).map(|t| a[t] + b[t] + local_outlet[t]).collect();
    assert_eq!(out.len(), 100);
    for (o, e) in out.iter().zip(&expected) {
        assert!((o - e).abs() < 1e-9, "{o} vs {e}");
    }
}

#[test]
fn routed_headwaters_conserve_volume_at_outlet() {
    // Same two-headwater network but with real Muskingum reaches: volume
    // is conserved at the outlet even though the hydrograph is reshaped.
    let a = triangular_hydrograph(300, 10, 30.0);
    let b = triangular_hydrograph(300, 25, 20.0);
    let nodes = vec![
        node(&a, Some(2), Some(reach(3.0, 0.2))),
        node(&b, Some(2), Some(reach(2.0, 0.1))),
        node(&[0.0; 300], None, None),
    ];
    let net = RiverNetwork::new(nodes, n(1.0)).unwrap();
    let out = vs(&net.route_to_outlet());
    let vin: f64 = a.iter().chain(&b).sum();
    let vout: f64 = out.iter().sum();
    assert!((vin - vout).abs() / vin < 0.02, "{vin} vs {vout}");
}

#[test]
fn chain_routes_in_topological_order() {
    // 0 -> 1 -> 2 (outlet). Headwater pulse must reach the outlet attenuated.
    let pulse = triangular_hydrograph(120, 8, 40.0);
    let nodes = vec![
        node(&pulse, Some(1), Some(reach(2.0, 0.1))),
        node(&[0.0; 120], Some(2), Some(reach(2.0, 0.1))),
        node(&[0.0; 120], None, None),
    ];
    let net = RiverNetwork::new(nodes, n(1.0)).unwrap();
    let out = vs(&net.route_to_outlet());
    let vin: f64 = pulse.iter().sum();
    let vout: f64 = out.iter().sum();
    assert!(
        (vin - vout).abs() / vin < 0.05,
        "mass through chain: {vin} vs {vout}"
    );
    // Two reaches of attenuation: outlet peak well below the headwater peak.
    assert!(out.iter().cloned().fold(0.0, f64::max) < 40.0);
}

#[test]
fn rejects_bad_topology() {
    let s = |d: Option<usize>| node(&[1.0; 10], d, None);
    // No outlet (cycle-ish: points forward but last has a target out of range).
    assert!(RiverNetwork::new(vec![s(Some(1)), s(Some(2))], n(1.0)).is_err());
    // Upstream link (node 1 -> 0) is not allowed.
    assert!(RiverNetwork::new(vec![s(None), s(Some(0))], n(1.0)).is_err());
    // Two outlets.
    assert!(RiverNetwork::new(vec![s(None), s(None)], n(1.0)).is_err());
}

#[test]
fn unit_conversions_round_trip() {
    let q_mm = 3.5;
    let area = n(860.0);
    let m3s = mm_per_day_to_m3s(n(q_mm), area);
    assert!((m3s_to_mm_per_day(m3s, area).0 - q_mm).abs() < 1e-12);
    // 1 mm/day over 86.4 square kilometres = exactly 1 cubic metre per second.
    assert!((mm_per_day_to_m3s(n(1.0), n(86.4)).0 - 1.0).abs() < 1e-12);
}

#[test]
fn reaches_name_what_they_reject() {
    assert_eq!(
        Muskingum::new(n(f64::NAN), n(0.2)).unwrap_err().message(),
        "invalid parameter `k`: Muskingum K (travel time) must be > 0"
    );
    assert_eq!(
        Muskingum::new(n(2.0), n(0.51)).unwrap_err().message(),
        "invalid parameter `x`: Muskingum x must be in [0, 0.5]"
    );
    assert!(Muskingum::new(n(2.0), n(0.5)).is_ok());
    assert!(Muskingum::new(n(2.0), n(0.0)).is_ok());
}

#[test]
fn coefficients_follow_the_muskingum_formulas() {
    // K = 2, x = 0.25, dt = 1: denominator 2 - 0.5 + 0.5 = 2.
    let (c0, c1, c2) = reach(2.0, 0.25).coefficients(n(1.0));
    assert_eq!((c0, c1, c2), (n(0.0), n(0.5), n(0.5)));
}

#[test]
fn routing_starts_steady_and_follows_the_recursion() {
    let m = reach(2.0, 0.25);
    let out = vs(&m.route(&ns(&[4.0, 0.0, 0.0]), n(1.0)));
    assert_eq!(out, vec![4.0, 4.0, 2.0]);
    assert_eq!(m.route(&[], n(1.0)).len(), 0);
}

#[test]
fn routing_overshoots_outside_the_stable_window() {
    // (C0, C1, C2) = (-1/3, 1, 1/3).
    let out = vs(&reach(2.0, 0.5).route(&ns(&[0.0, 3.0, 0.0]), n(1.0)));
    for (a, b) in out.iter().zip([0.0, -1.0, 8.0 / 3.0]) {
        assert!((a - b).abs() < 1e-12, "{a} vs {b}");
    }
}

#[test]
fn overshoot_does_not_violate_the_mass_balance() {
    // dt = 1 lies below 2 K x = 4.
    let (k, x, dt) = (5.0, 0.4, 1.0);
    let inflow = triangular_hydrograph(60, 3, 25.0);
    let out = vs(&reach(k, x).route(&ns(&inflow), n(dt)));
    assert!(out.iter().any(|&q| q < 0.0));
    let store = |t: usize| k * (x * inflow[t] + (1.0 - x) * out[t]);
    let passed = |s: &[f64]| s.windows(2).map(|w| dt / 2.0 * (w[0] + w[1])).sum::<f64>();
    let gain = store(59) - store(0);
    assert!((gain - (passed(&inflow) - passed(&out))).abs() < 1e-9);
}

#[test]
fn steady_flow_passes_a_reach() {
    for q in reach(3.0, 0.2).route(&[n(7.0); 50], n(1.0)) {
        assert!((q.0 - 7.0).abs() < 1e-12);
    }
}

#[test]
fn stable_reach_keeps_within_its_inflow() {
    // 2 K x = 1.2 <= dt = 2 <= 2 K (1 - x) = 4.8.
    let inflow = triangular_hydrograph(80, 7, 25.0);
    let out = vs(&reach(3.0, 0.2).route(&ns(&inflow), n(2.0)));
    let (mut low, mut high) = (f64::INFINITY, f64::NEG_INFINITY);
    for (i, q) in inflow.iter().zip(&out) {
        low = low.min(*i);
        high = high.max(*i);
        assert!((low - 1e-12..=high + 1e-12).contains(q));
    }
}

#[test]
fn reach_storage_balances_its_flows() {
    let (k, x, dt) = (3.0, 0.2, 2.0);
    let inflow = triangular_hydrograph(80, 7, 25.0);
    let out = vs(&reach(k, x).route(&ns(&inflow), n(dt)));
    let store = |t: usize| k * (x * inflow[t] + (1.0 - x) * out[t]);
    let passed = |s: &[f64]| s.windows(2).map(|w| dt / 2.0 * (w[0] + w[1])).sum::<f64>();
    let gain = store(79) - store(0);
    assert!((gain - (passed(&inflow) - passed(&out))).abs() < 1e-9);
}

#[test]
fn networks_name_what_they_reject() {
    let s = |d: Option<usize>| node(&[1.0; 3], d, None);
    let reject = |nodes: Vec<Subcatchment<N>>, dt: f64| {
        RiverNetwork::new(nodes, n(dt)).unwrap_err().message()
    };
    assert_eq!(
        reject(vec![], 1.0),
        "invalid parameter `nodes`: network needs at least one subcatchment"
    );
    assert_eq!(
        reject(vec![s(Some(1)), node(&[1.0; 4], None, None)], 1.0),
        "invalid parameter `local_runoff`: node 1 series length differs from node 0"
    );
    assert_eq!(
        reject(vec![s(None), s(Some(0))], 1.0),
        "invalid parameter `downstream`: node 1 drains to 0: links must point to a later (downstream) node"
    );
    assert_eq!(
        reject(vec![s(Some(1)), s(Some(12))], 1.0),
        "invalid parameter `downstream`: node 1 drains to out-of-range node 12"
    );
    assert_eq!(
        reject(vec![s(None), s(None)], 1.0),
        "invalid parameter `downstream`: network must have exactly one outlet, found 2"
    );
    assert_eq!(
        reject(vec![s(None)], 0.0),
        "invalid parameter `dt`: routing time step must be > 0"
    );
    assert_eq!(
        reject(vec![s(None)], f64::NAN),
        "invalid parameter `dt`: routing time step must be > 0"
    );
}

#[test]
fn outlet_reach_routes_too() {
    let m = reach(2.0, 0.25);
    let local = [4.0, 0.0, 0.0];
    let net = RiverNetwork::new(vec![node(&local, None, Some(m))], n(1.0)).unwrap();
    assert_eq!(vs(&net.route_to_outlet()), vec![4.0, 4.0, 2.0]);
}

#[test]
fn network_balances_runoff_outlet_and_reaches() {
    let (k, x, dt) = (3.0, 0.2, 2.0);
    let a = triangular_hydrograph(90, 7, 25.0);
    let b = triangular_hydrograph(90, 30, 10.0);
    let nodes = vec![node(&a, Some(1), Some(reach(k, x))), node(&b, None, None)];
    let out = vs(&RiverNetwork::new(nodes, n(dt)).unwrap().route_to_outlet());
    let routed = vs(&reach(k, x).route(&ns(&a), n(dt)));
    let store = |t: usize| k * (x * a[t] + (1.0 - x) * routed[t]);
    let passed = |s: &[f64]| s.windows(2).map(|w| dt / 2.0 * (w[0] + w[1])).sum::<f64>();
    let gain = store(89) - store(0);
    assert!((passed(&out) + gain - passed(&a) - passed(&b)).abs() < 1e-9);
}
