//! Tests of the GR4J model.
use num_traits::Float;
use rainflow::error::Error;
use rainflow::gr4j::ordinates;
use rainflow::number::{Arith, Scalar};
use rainflow::{Gr4j, Gr4jParams};

/// A machine number for the models to compute with.
#[derive(Debug, Clone, Copy, PartialEq, PartialOrd)]
struct Num<T>(T);

impl<T: Float> Arith for Num<T> {}

impl<T: Float> Scalar for Num<T> {
    fn ratio(num: i64, den: i64) -> Self {
        Num(T::from(num as f64 / den as f64).unwrap())
    }
    fn from_usize(n: usize) -> Self {
        Num(T::from(n).unwrap())
    }
    fn nan() -> Self {
        Num(T::nan())
    }
    fn add(self, other: Self) -> Self {
        Num(self.0 + other.0)
    }
    fn sub(self, other: Self) -> Self {
        Num(self.0 - other.0)
    }
    fn mul(self, other: Self) -> Self {
        Num(self.0 * other.0)
    }
    fn div(self, other: Self) -> Self {
        Num(self.0 / other.0)
    }
    fn min(self, other: Self) -> Self {
        Num(self.0.min(other.0))
    }
    fn max(self, other: Self) -> Self {
        Num(self.0.max(other.0))
    }
    fn abs(self) -> Self {
        Num(self.0.abs())
    }
    fn powf(self, exponent: Self) -> Self {
        Num(self.0.powf(exponent.0))
    }
    fn powi(self, exponent: i32) -> Self {
        Num(self.0.powi(exponent))
    }
    fn sqrt(self) -> Self {
        Num(self.0.sqrt())
    }
    fn ln(self) -> Self {
        Num(self.0.ln())
    }
    fn tanh(self) -> Self {
        Num(self.0.tanh())
    }
    fn less_than(self, other: Self) -> bool {
        self.0 < other.0
    }
    fn at_most(self, other: Self) -> bool {
        self.0 <= other.0
    }
    fn equal_to(self, other: Self) -> bool {
        self.0 == other.0
    }
    fn is_nan(self) -> bool {
        self.0.is_nan()
    }
    fn is_finite(self) -> bool {
        self.0.is_finite()
    }
    fn ceil_to_usize(self) -> Option<usize> {
        self.0.ceil().to_usize()
    }
    fn render(self) -> String {
        format!("{:?}", self.0.to_f64())
    }
}

type N = Num<f64>;

fn n(v: f64) -> N {
    Num(v)
}

fn ns(v: &[f64]) -> Vec<N> {
    v.iter().map(|&x| Num(x)).collect()
}

fn vs(v: &[N]) -> Vec<f64> {
    v.iter().map(|x| x.0).collect()
}

/// Deterministic synthetic forcing (LCG), winter-rain regime.
fn synthetic_forcing(n: usize) -> (Vec<f64>, Vec<f64>) {
    let mut seed: u64 = 42;
    let mut next = move || {
        seed = seed
            .wrapping_mul(6364136223846793005)
            .wrapping_add(1442695040888963407);
        (seed >> 33) as f64 / (1u64 << 31) as f64
    };
    let mut p = Vec::with_capacity(n);
    let mut pet = Vec::with_capacity(n);
    for i in 0..n {
        let doy = (i % 365) as f64;
        let wet = if (120.0..270.0).contains(&doy) {
            0.55
        } else {
            0.15
        };
        p.push(if next() < wet {
            -12.0 * (1.0 - next()).ln()
        } else {
            0.0
        });
        pet.push((3.5 + 2.5 * (2.0 * std::f64::consts::PI * (doy - 15.0) / 365.25).sin()).max(0.1));
    }
    (p, pet)
}

fn model(x1: f64, x2: f64, x3: f64, x4: f64) -> Gr4j<N> {
    Gr4j::new(Gr4jParams {
        x1: n(x1),
        x2: n(x2),
        x3: n(x3),
        x4: n(x4),
    })
    .unwrap()
}

#[test]
fn uh_ordinates_sum_to_one() {
    for x4 in [0.5, 1.0, 1.7, 3.9, 10.3] {
        let (o1, o2) = ordinates(n(x4));
        let s1: f64 = vs(&o1).iter().sum();
        let s2: f64 = vs(&o2).iter().sum();
        assert!((s1 - 1.0).abs() < 1e-12, "UH1 sum {s1} for x4={x4}");
        assert!((s2 - 1.0).abs() < 1e-12, "UH2 sum {s2} for x4={x4}");
        assert_eq!(o1.len(), x4.ceil() as usize);
        assert_eq!(o2.len(), (2.0 * x4).ceil() as usize);
    }
}

#[test]
fn stores_stay_within_capacity() {
    let m = model(350.0, -1.5, 90.0, 1.7);
    let (p, pet) = synthetic_forcing(2000);
    let mut state = m.initial_state();
    for (&pi, &ei) in p.iter().zip(&pet) {
        let q = m.step(&mut state, n(pi), n(ei)).0;
        assert!(q >= 0.0, "negative discharge");
        assert!(
            state.s.0 >= 0.0 && state.s.0 <= 350.0,
            "S out of bounds: {}",
            state.s.0
        );
        assert!(
            state.r.0 >= 0.0 && state.r.0 <= 90.0 + 1e-9,
            "R out of bounds: {}",
            state.r.0
        );
    }
}

#[test]
fn recession_is_monotonic_without_rain() {
    let m = model(350.0, 0.0, 90.0, 1.7);
    let mut state = m.initial_state();
    // Wet spell to charge the stores, then dry recession.
    for _ in 0..30 {
        m.step(&mut state, n(20.0), n(1.0));
    }
    let mut prev = f64::INFINITY;
    for i in 0..100 {
        let q = m.step(&mut state, n(0.0), n(2.0)).0;
        // Skip the UH tail (first 2 x4 steps still release stored pulses).
        if i > 4 {
            assert!(q <= prev + 1e-12, "recession not monotonic at step {i}");
        }
        prev = q;
    }
}

#[test]
fn mass_balance_closes_without_exchange() {
    // With x2 = 0 the only fluxes are P, actual ET, Q and storage change
    // (stores + water in transit inside the UH buffers).
    let m = model(350.0, 0.0, 90.0, 1.7);
    let (p, pet) = synthetic_forcing(3000);
    let q = vs(&m.run(&ns(&p), &ns(&pet)).unwrap());
    let state0 = m.initial_state();
    // Recompute final state to read storages.
    let mut state = m.initial_state();
    for (&pi, &ei) in p.iter().zip(&pet) {
        m.step(&mut state, n(pi), n(ei));
    }
    let total_p: f64 = p.iter().sum();
    let total_q: f64 = q.iter().sum();
    let in_transit: f64 = vs(&state.uh1).iter().sum::<f64>() + vs(&state.uh2).iter().sum::<f64>();
    let storage_change = (state.s.0 - state0.s.0) + (state.r.0 - state0.r.0) + in_transit;
    // Actual ET = P - Q - dS must be non-negative and bounded by PET total.
    let aet = total_p - total_q - storage_change;
    let total_pet: f64 = pet.iter().sum();
    assert!(aet >= 0.0, "negative actual ET: {aet}");
    assert!(aet <= total_pet, "actual ET {aet} exceeds PET {total_pet}");
}

#[test]
fn gr4j_generic_over_f32_and_f64() {
    let (p64, pet64) = synthetic_forcing(400);
    let m64 = model(350.0, -1.5, 90.0, 1.7);
    let q64 = vs(&m64.run(&ns(&p64), &ns(&pet64)).unwrap());

    let m32 = Gr4j::new(Gr4jParams {
        x1: Num(350.0f32),
        x2: Num(-1.5),
        x3: Num(90.0),
        x4: Num(1.7),
    })
    .unwrap();
    let p32: Vec<Num<f32>> = p64.iter().map(|&v| Num(v as f32)).collect();
    let pet32: Vec<Num<f32>> = pet64.iter().map(|&v| Num(v as f32)).collect();
    let q32 = m32.run(&p32, &pet32).unwrap();

    for (a, b) in q64.iter().zip(&q32) {
        let b = b.0;
        assert!(
            (a - b as f64).abs() < 1e-3,
            "f32/f64 divergence: {a} vs {b}"
        );
    }
}

#[test]
fn gr4j_rejects_invalid_parameters() {
    assert!(Gr4j::new(Gr4jParams {
        x1: n(0.0),
        x2: n(0.0),
        x3: n(90.0),
        x4: n(1.7)
    })
    .is_err());
    assert!(Gr4j::new(Gr4jParams {
        x1: n(350.0),
        x2: n(0.0),
        x3: n(-1.0),
        x4: n(1.7)
    })
    .is_err());
    assert!(Gr4j::new(Gr4jParams {
        x1: n(350.0),
        x2: n(0.0),
        x3: n(90.0),
        x4: n(0.4)
    })
    .is_err());
}

fn rejection(x1: f64, x2: f64, x3: f64, x4: f64) -> String {
    Gr4j::new(Gr4jParams {
        x1: n(x1),
        x2: n(x2),
        x3: n(x3),
        x4: n(x4),
    })
    .unwrap_err()
    .message()
}

#[test]
fn gr4j_names_the_rejected_parameter() {
    assert_eq!(
        rejection(0.0, 0.0, 90.0, 1.7),
        "invalid parameter `x1`: production store capacity must be > 0 mm"
    );
    assert_eq!(
        rejection(f64::NAN, 0.0, 90.0, 1.7),
        "invalid parameter `x1`: production store capacity must be > 0 mm"
    );
    assert_eq!(
        rejection(350.0, f64::NAN, 90.0, 1.7),
        "invalid parameter `x2`: groundwater exchange coefficient must be finite"
    );
    assert_eq!(
        rejection(350.0, 0.0, 0.0, 1.7),
        "invalid parameter `x3`: routing store capacity must be > 0 mm"
    );
    assert_eq!(
        rejection(350.0, 0.0, 90.0, 0.49),
        "invalid parameter `x4`: unit hydrograph time base must be >= 0.5 days"
    );
    // The boundary itself is accepted.
    assert_eq!(model(350.0, 0.0, 90.0, 0.5).params().x4, n(0.5));
}

#[test]
fn gr4j_rejects_series_of_different_lengths() {
    let m = model(350.0, 0.0, 90.0, 1.7);
    let e = m.run(&ns(&[1.0, 2.0, 3.0]), &ns(&[1.0])).unwrap_err();
    assert!(matches!(
        e,
        Error::ForcingLengthMismatch { precip: 3, pet: 1 }
    ));
    assert_eq!(
        e.message(),
        "forcing series length mismatch: precip has 3 steps, pet has 1"
    );
    // A rejected series leaves the state alone.
    let mut state = m.initial_state();
    let before = state.clone();
    assert!(m.run_from(&mut state, &ns(&[1.0]), &ns(&[])).is_err());
    assert_eq!(state.s, before.s);
    assert_eq!(state.r, before.r);
    assert_eq!(m.run(&[], &[]).unwrap().len(), 0);
}

#[test]
fn gr4j_starts_from_the_default_state() {
    let state = model(350.0, -1.5, 90.0, 1.7).initial_state();
    assert_eq!(state.s, n(0.3 * 350.0));
    assert_eq!(state.r, n(45.0));
    assert_eq!(vs(&state.uh1), vec![0.0; 2]);
    assert_eq!(vs(&state.uh2), vec![0.0; 4]);
}

#[test]
fn slow_ordinates_follow_the_s_curve() {
    let (o1, o2) = ordinates(n(2.0));
    let half = 0.5f64.powf(2.5);
    assert_eq!(vs(&o1), vec![half, 1.0 - half]);
    assert_eq!(o2.len(), 4);
    assert_eq!(o2[0], n(0.5 * half));
    assert_eq!(o2[1], n(0.5 - 0.5 * half));
    // A time base within one step puts everything on the first day.
    assert_eq!(vs(&ordinates(n(0.5)).0), vec![1.0]);
}

#[test]
fn one_step_gives_the_published_formulas() {
    let m = model(350.0, 2.0, 90.0, 0.5);
    let mut state = m.initial_state();
    let q = m.step(&mut state, n(10.0), n(4.0)).0;

    let (x1, x3) = (350.0f64, 90.0f64);
    let (s0, r0) = (0.3 * x1, 0.5 * x3);
    let w = (6.0f64 / x1).tanh();
    let sr = s0 / x1;
    let ps = x1 * (1.0 - sr * sr) * w / (1.0 + sr * w);
    let s1 = s0 + ps;
    let perc = s1 * (1.0 - (1.0 + (s1 / (2.25 * x1)).powi(4)).powf(-0.25));
    let pr = perc + (6.0 - ps);
    let (q9, q1) = (0.9 * pr, pr - 0.9 * pr);
    let exch = 2.0 * (r0 / x3).powf(3.5);
    let r1 = (r0 + q9 + exch).max(0.0);
    let qr = r1 * (1.0 - (1.0 + (r1 / x3).powi(4)).powf(-0.25));
    let qd = (q1 + exch).max(0.0);
    assert!((q - (qr + qd)).abs() < 1e-12, "{q}");
    assert!((state.s.0 - (s1 - perc)).abs() < 1e-12);
    assert!((state.r.0 - (r1 - qr)).abs() < 1e-12);
}

#[test]
fn dry_step_draws_on_the_production_store() {
    let m = model(350.0, 0.0, 90.0, 0.5);
    let mut state = m.initial_state();
    m.step(&mut state, n(1.0), n(4.0));
    let (x1, s0) = (350.0f64, 0.3 * 350.0f64);
    let w = (3.0f64 / x1).tanh();
    let sr = s0 / x1;
    let es = s0 * (2.0 - sr) * w / (1.0 + (1.0 - sr) * w);
    let s1 = s0 - es;
    let perc = s1 * (1.0 - (1.0 + (s1 / (2.25 * x1)).powi(4)).powf(-0.25));
    assert!((state.s.0 - (s1 - perc)).abs() < 1e-12);
}

#[test]
fn gr4j_split_run_equals_continuous_run() {
    let m = model(350.0, -1.5, 90.0, 1.7);
    let (p, pet) = synthetic_forcing(300);
    let (p, pet) = (ns(&p), ns(&pet));
    let whole = m.run(&p, &pet).unwrap();
    let mut state = m.initial_state();
    let mut parts = m.run_from(&mut state, &p[..120], &pet[..120]).unwrap();
    parts.extend(m.run_from(&mut state, &p[120..], &pet[120..]).unwrap());
    assert_eq!(whole, parts);
}

#[test]
fn only_the_net_input_counts() {
    let m = model(350.0, -1.5, 90.0, 1.7);
    for (p, pet) in [(10.0, 4.0), (1.0, 4.0), (3.0, 3.0)] {
        let (mut a, mut b) = (m.initial_state(), m.initial_state());
        let q = m.step(&mut a, n(p), n(pet));
        let net = if p >= pet { (p - pet, 0.0) } else { (0.0, pet - p) };
        assert_eq!(q, m.step(&mut b, n(net.0), n(net.1)));
        assert_eq!((a.s, a.r), (b.s, b.r));
    }
}
