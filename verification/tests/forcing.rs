//! Tests of forcing tables, settings by name and sessions over a table.
use num_traits::Float;
use rainflow::calibrate::{DdsResult, Objective, Optimizer};
use rainflow::forcing::{
    date_names, find_column, listed, parse_value, pet_names, precip_names, qobs_names, read_rows,
    read_text, Forcing, ForcingError,
};
use rainflow::metrics::{kge, kge_components, log_nse, nse, pbias};
use rainflow::number::{Arith, Readable, Scalar};
use rainflow::session::{
    assess, build_optimizer, calibrate, objective_named, optimizer_named, parse_objective, run,
    SessionError, SettingError,
};
use rainflow::text::{decimal, same_but_case, strip};
use rainflow::{Gr4j, Gr4jParams};

/// A machine number for the models to compute with.
#[derive(Debug, Clone, Copy, PartialEq, PartialOrd)]
struct Num<T>(T);

impl<T: Float> Arith for Num<T> {}

impl<T: Float> Scalar for Num<T> {
    fn ratio(num: i64, den: i64) -> Self {
        Num(T::from(num as f64 / den as f64).unwrap())
    }
    fn from_usize(n: usize) -> Self {
        Num(T::from(n).unwrap())
    }
    fn nan() -> Self {
        Num(T::nan())
    }
    fn add(self, other: Self) -> Self {
        Num(self.0 + other.0)
    }
    fn sub(self, other: Self) -> Self {
        Num(self.0 - other.0)
    }
    fn mul(self, other: Self) -> Self {
        Num(self.0 * other.0)
    }
    fn div(self, other: Self) -> Self {
        Num(self.0 / other.0)
    }
    fn min(self, other: Self) -> Self {
        Num(self.0.min(other.0))
    }
    fn max(self, other: Self) -> Self {
        Num(self.0.max(other.0))
    }
    fn abs(self) -> Self {
        Num(self.0.abs())
    }
    fn powf(self, exponent: Self) -> Self {
        Num(self.0.powf(exponent.0))
    }
    fn powi(self, exponent: i32) -> Self {
        Num(self.0.powi(exponent))
    }
    fn sqrt(self) -> Self {
        Num(self.0.sqrt())
    }
    fn ln(self) -> Self {
        Num(self.0.ln())
    }
    fn tanh(self) -> Self {
        Num(self.0.tanh())
    }
    fn less_than(self, other: Self) -> bool {
        self.0 < other.0
    }
    fn at_most(self, other: Self) -> bool {
        self.0 <= other.0
    }
    fn equal_to(self, other: Self) -> bool {
        self.0 == other.0
    }
    fn is_nan(self) -> bool {
        self.0.is_nan()
    }
    fn is_finite(self) -> bool {
        self.0.is_finite()
    }
    fn ceil_to_usize(self) -> Option<usize> {
        self.0.ceil().to_usize()
    }
    fn render(self) -> String {
        format!("{:?}", self.0.to_f64())
    }
}

impl Readable for Num<f64> {
    fn parse(text: &str) -> Option<Self> {
        text.parse::<f64>().ok().map(Num)
    }
}

type N = Num<f64>;

fn n(v: f64) -> N {
    Num(v)
}

fn ns(v: &[f64]) -> Vec<N> {
    v.iter().map(|&x| Num(x)).collect()
}

fn vs(v: &[N]) -> Vec<f64> {
    v.iter().map(|x| x.0).collect()
}

fn row(cells: &[&str]) -> Vec<String> {
    cells.iter().map(|c| c.to_string()).collect()
}

fn table(headers: &[&str], rows: &[&[&str]]) -> Result<Forcing<N>, ForcingError> {
    let records: Vec<Result<Vec<String>, String>> = rows.iter().map(|r| Ok(row(r))).collect();
    read_rows(Ok(row(headers)), &records)
}

#[test]
fn columns_are_found_whatever_their_case() {
    let headers = row(&["Fecha", "  PRECIP ", "Pet_MM", "Caudal"]);
    assert_eq!(find_column(&headers, &date_names()), Some(0));
    assert_eq!(find_column(&headers, &precip_names()), Some(1));
    assert_eq!(find_column(&headers, &pet_names()), Some(2));
    assert_eq!(find_column(&headers, &qobs_names()), Some(3));
    assert_eq!(find_column(&headers, &["other"]), None);
    assert_eq!(find_column(&[], &["other"]), None);
    // The first of several wins.
    assert_eq!(find_column(&row(&["x", "q", "Q"]), &qobs_names()), Some(1));
    // Lowercasing follows Unicode, not only ASCII.
    assert_eq!(find_column(&row(&["\u{c9}T\u{c9}"]), &["\u{e9}t\u{e9}"]), Some(0));
    assert!(listed(&["a", "b"], "b"));
    assert!(!listed(&["a", "b"], "B"));
}

#[test]
fn cells_are_numbers_or_gaps() {
    assert_eq!(parse_value::<N>(" 2.5 "), Some(n(2.5)));
    assert_eq!(parse_value::<N>("-1e3"), Some(n(-1000.0)));
    for gap in ["", "   ", "NA", "na", " Na", "NaN", "nan\t", "NAN"] {
        assert!(parse_value::<N>(gap).unwrap().0.is_nan(), "{gap:?}");
    }
    assert_eq!(parse_value::<N>("1,5"), None);
    assert_eq!(parse_value::<N>("n/a"), None);
}

#[test]
fn white_space_is_stripped_at_both_ends() {
    assert_eq!(strip("\u{a0}\t a b\u{3000}\n"), "a b");
    assert_eq!(strip(" \u{2009} "), "");
    assert_eq!(strip(""), "");
    assert_eq!(strip("\u{200b}x"), "\u{200b}x");
    for c in ('\0'..=char::MAX).filter(|c| c.is_whitespace()) {
        assert_eq!(strip(&format!("{c}x{c}")), "x", "{c:?}");
    }
    for c in ('\0'..='\u{3fff}').filter(|c| !c.is_whitespace()) {
        assert_eq!(strip(&format!("{c}")).len(), c.len_utf8(), "{c:?}");
    }
    assert!(same_but_case("NaN", "nan"));
    assert!(!same_but_case("na", "nan"));
    assert!(!same_but_case("\u{c9}", "\u{e9}"));
}

#[test]
fn counts_are_written_in_decimal() {
    assert_eq!(decimal(0), "0");
    assert_eq!(decimal(9876543210), "9876543210");
    assert_eq!(decimal(usize::MAX), usize::MAX.to_string());
}

#[test]
fn table_is_read_into_series() {
    let f = table(
        &["Date", "Temp", "P", "PET", "Qobs"],
        &[
            &["2000-01-01", "3", "1.5", "2", "0.5"],
            &["2000-01-02", "4", "0", "2.5", "NA"],
        ],
    )
    .unwrap();
    assert_eq!(f.dates, row(&["2000-01-01", "2000-01-02"]));
    assert_eq!(vs(&f.precip), vec![1.5, 0.0]);
    assert_eq!(vs(&f.pet), vec![2.0, 2.5]);
    let q = vs(&f.qobs.unwrap());
    assert!(q[0] == 0.5 && q[1].is_nan());
}

#[test]
fn text_is_read_into_series() {
    let text = "Date,P,PET,\"Q\"\n2000-01-01,1.5,2,NA\n\"Jan 2, 2000\",0,2.5,0.25\n";
    let f = read_text::<N>(text.as_bytes()).unwrap();
    assert_eq!(f.dates, row(&["2000-01-01", "Jan 2, 2000"]));
    assert_eq!(vs(&f.precip), vec![1.5, 0.0]);
    assert_eq!(vs(&f.pet), vec![2.0, 2.5]);
    let q = vs(&f.qobs.unwrap());
    assert!(q[0].is_nan() && q[1] == 0.25);
    // No discharge column, and no line end after the last row.
    let f = read_text::<N>(b"fecha,pr,etp\nx,1,2").unwrap();
    assert_eq!(f.dates, row(&["x"]));
    assert!(f.qobs.is_none());
}

#[test]
fn unreadable_text_is_rejected() {
    assert!(matches!(
        read_text::<N>(b"p,pet\n1.0,0.5\n2.0,0.5\n"),
        Err(ForcingError::NoDate { headers }) if headers == row(&["p", "pet"])
    ));
    assert!(matches!(
        read_text::<N>(b""),
        Err(ForcingError::NoPrecipitation { .. })
    ));
    assert!(matches!(
        read_text::<N>(b"date,p,pet\n"),
        Err(ForcingError::NoRows)
    ));
    assert!(matches!(
        read_text::<N>(b"date,p\xff,pet\n1,2,3\n"),
        Err(ForcingError::NoHeader { .. })
    ));
    // A record of another length, and one that is no UTF-8.
    assert!(matches!(
        read_text::<N>(b"date,p,pet\n1,2,3\n1,2\n"),
        Err(ForcingError::Unreadable { row: 3, reason }) if reason.contains("2 fields")
    ));
    assert!(matches!(
        read_text::<N>(b"date,p,pet\n\xff,2,3\n"),
        Err(ForcingError::Unreadable { row: 2, reason }) if reason.contains("record 1 (line 2")
    ));
    // The first fault wins, whatever its kind.
    assert!(matches!(
        read_text::<N>(b"date,p,pet\n1,x,3\n1,2\n"),
        Err(ForcingError::InvalidNumber { row: 2, .. })
    ));
    assert!(matches!(
        read_text::<N>(b"date,p,pet\n1,2\n1,x,3\n"),
        Err(ForcingError::Unreadable { row: 2, .. })
    ));
}

#[test]
fn records_that_end_early_are_filled_up() {
    // Without a date the step is numbered, and a missing discharge is a gap.
    let f = table(&["p", "e", "q", "date"], &[&["1", "2"]]).unwrap();
    assert_eq!(f.dates, row(&["1"]));
    assert!(f.qobs.unwrap()[0].0.is_nan());
}

#[test]
fn unreadable_tables_are_rejected() {
    assert!(matches!(
        table(&["date", "pet"], &[]),
        Err(ForcingError::NoPrecipitation { .. })
    ));
    assert!(matches!(
        table(&["date", "p"], &[]),
        Err(ForcingError::NoPet { .. })
    ));
    assert!(matches!(
        table(&["p", "pet"], &[&["1", "2"]]),
        Err(ForcingError::NoDate { .. })
    ));
    assert!(matches!(
        table(&["date", "p", "pet"], &[]),
        Err(ForcingError::NoRows)
    ));
    let d = ["date", "p", "pet", "q"];
    assert!(matches!(
        table(&d, &[&["a", "1", "2", ""], &["b", " x ", "2", ""]]),
        Err(ForcingError::InvalidNumber { row: 3, text }) if text == "x"
    ));
    assert!(matches!(
        table(&d, &[&["a", "1", "y", ""]]),
        Err(ForcingError::InvalidNumber { row: 2, text }) if text == "y"
    ));
    assert!(matches!(
        table(&d, &[&["a", "1", "2", "z"]]),
        Err(ForcingError::InvalidNumber { row: 2, text }) if text == "z"
    ));
    assert!(matches!(
        table(&d, &[&["a", "1", "2", ""], &["b", "1", "NA", ""]]),
        Err(ForcingError::MissingInput { row: 3 })
    ));
    assert!(matches!(
        table(&d, &[&["a", "inf", "2", ""]]),
        Err(ForcingError::MissingInput { row: 2 })
    ));
    assert!(matches!(
        table(&d, &[&["a", "1"]]),
        Err(ForcingError::MissingInput { row: 2 })
    ));
    assert!(matches!(
        read_rows::<N>(Err("no".to_string()), &[]),
        Err(ForcingError::NoHeader { reason }) if reason == "no"
    ));
    assert!(matches!(
        read_rows::<N>(Ok(row(&d)), &[Err("bad".to_string())]),
        Err(ForcingError::Unreadable { row: 2, reason }) if reason == "bad"
    ));
}

#[test]
fn settings_are_found_by_name() {
    assert_eq!(parse_objective("NSE").unwrap(), Objective::Nse);
    assert_eq!(parse_objective("Kge").unwrap(), Objective::Kge);
    assert_eq!(parse_objective("LogNSE").unwrap(), Objective::LogNse);
    assert_eq!(parse_objective("log_nse").unwrap(), Objective::LogNse);
    assert!(matches!(
        parse_objective("RMSE"),
        Err(SettingError::UnknownObjective(name)) if name == "rmse"
    ));
    assert_eq!(objective_named("nse"), Some(Objective::Nse));
    assert_eq!(objective_named("NSE"), None);
    let dds = build_optimizer::<N>("DDS", 10, 7, 3).unwrap();
    assert!(matches!(dds, Optimizer::Dds(c) if c.max_iter == 10 && c.seed == 7 && c.r == n(0.2)));
    let sce = build_optimizer::<N>("Sce", 10, 7, 3).unwrap();
    assert!(
        matches!(sce, Optimizer::Sce(c) if c.max_iter == 10 && c.seed == 7 && c.complexes == 3)
    );
    assert!(matches!(
        build_optimizer::<N>("PSO", 10, 7, 3),
        Err(SettingError::UnknownAlgorithm(name)) if name == "pso"
    ));
    assert!(optimizer_named::<N>("DDS", 10, 7, 3).is_none());
}

fn sample(qobs: bool) -> Forcing<N> {
    Forcing {
        dates: row(&["1", "2", "3", "4", "5"]),
        precip: ns(&[10.0, 0.0, 5.0, 20.0, 1.0]),
        pet: ns(&[1.0, 2.0, 1.0, 2.0, 1.0]),
        qobs: if qobs {
            Some(ns(&[9.0, 2.0, f64::NAN, 4.0, 3.0]))
        } else {
            None
        },
    }
}

fn prm() -> Gr4jParams<N> {
    Gr4jParams {
        x1: n(350.0),
        x2: n(-1.5),
        x3: n(90.0),
        x4: n(1.7),
    }
}

#[test]
fn run_simulates_and_assesses() {
    let f = sample(true);
    let qsim = Gr4j::new(prm()).unwrap().run(&f.precip, &f.pet).unwrap();
    let report = run(prm(), &f, 1).unwrap();
    assert_eq!(report.qsim, qsim);
    let a = report.assessment.unwrap();
    let qobs = f.qobs.as_ref().unwrap();
    let (o, s) = (&qobs[1..], &qsim[1..]);
    assert_eq!(a.nse.unwrap(), nse(o, s).unwrap());
    assert_eq!(a.kge.unwrap(), kge(o, s).unwrap());
    assert_eq!(a.log_nse.unwrap(), log_nse(o, s).unwrap());
    assert_eq!(a.pbias.unwrap(), pbias(o, s).unwrap());
    assert_eq!(a.components.unwrap(), kge_components(o, s).unwrap());
    assert!(assess(qobs, &qsim, 5).nse.is_err());
    assert!(run(prm(), &sample(false), 1).unwrap().assessment.is_none());
}

#[test]
fn run_names_what_it_rejects() {
    assert_eq!(
        run(prm(), &sample(true), 5).unwrap_err().message(),
        "warm-up (5) must be shorter than the series (5 steps)"
    );
    let mut bad = prm();
    bad.x1 = n(0.0);
    assert_eq!(
        run(bad, &sample(true), 4).unwrap_err().message(),
        "invalid parameter `x1`: production store capacity must be > 0 mm"
    );
}

#[test]
fn calibration_session_reports_the_optimum() {
    let f = sample(true);
    let report = calibrate(&f, Objective::Nse, 50, 7, 1, |b, i, o, problem| {
        assert_eq!(b.len(), 4);
        assert!(i.is_none());
        assert!(
            matches!(o, Optimizer::Dds(c) if c.max_iter == 50 && c.seed == 7 && c.r == n(0.2))
        );
        assert_eq!((problem.warmup, problem.objective), (1, Objective::Nse));
        DdsResult {
            params: ns(&[350.0, -1.5, 90.0, 1.7]),
            value: problem.evaluate(&ns(&[350.0, -1.5, 90.0, 1.7])),
            evaluations: 50,
        }
    })
    .unwrap();
    assert_eq!(report.calibration.params, prm());
    assert_eq!(report.calibration.evaluations, 50);
    assert_eq!(report.assessment.nse.unwrap(), report.calibration.value);
}

#[test]
fn calibration_session_names_what_it_rejects() {
    fn unused<O>(_: &[(N, N)], _: Option<&[N]>, _: Optimizer<N>, _: O) -> DdsResult<N> {
        panic!("a rejected search must not start")
    }
    let e = calibrate(&sample(false), Objective::Nse, 50, 7, 1, unused).unwrap_err();
    assert!(matches!(e, SessionError::NoObserved));
    assert_eq!(
        e.message(),
        "calibration requires an observed discharge column (qobs)"
    );
    assert_eq!(
        calibrate(&sample(true), Objective::Nse, 50, 7, 9, unused)
            .unwrap_err()
            .message(),
        "invalid parameter `warmup`: warm-up (9) must be shorter than the series (5)"
    );
    assert_eq!(
        calibrate(&sample(true), Objective::Nse, 1, 7, 0, unused)
            .unwrap_err()
            .message(),
        "invalid parameter `max_iter`: iteration budget must be >= 2"
    );
    // An engine that answers out of range.
    assert_eq!(
        calibrate(&sample(true), Objective::Nse, 2, 7, 0, |_, _, _, _| DdsResult {
            params: ns(&[-1.0, 0.0, 1.0, 1.0]),
            value: n(0.0),
            evaluations: 2,
        })
        .unwrap_err()
        .message(),
        "invalid parameter `x1`: production store capacity must be > 0 mm"
    );
}
