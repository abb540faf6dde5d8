//! Automatic calibration.
//!
//! Two single-objective global optimizers, selectable through [`Optimizer`]:
//!
//! - **DDS**, Dynamically Dimensioned Search (Tolson & Shoemaker 2007, WRR 43,
//!   W01413): a greedy search that scales the number of perturbed dimensions
//!   down as the budget is consumed. Parsimonious, few control parameters.
//! - **SCE-UA**, Shuffled Complex Evolution (Duan et al. 1992, WRR 28,
//!   1015-1031): a population of complexes evolved by competitive complex
//!   evolution and periodically shuffled. More robust on multimodal surfaces,
//!   at a higher evaluation cost.
//!
//! The search itself is the business of an optimization engine, which the
//! caller hands in as a function of the bounds, the starting solution, the
//! settings and the objective. What is decided here is whether a search may
//! start at all, what each candidate is worth and what the outcome means as a
//! parameter set. Objective values that are not finite stand for
//! rejected candidates.
use vstd::prelude::*;
use vstd::slice::slice_subrange;
use vstd::string::*;
use crate::bands::{ElevationBand, ElevationBands, HbvBands};
use crate::error::{reject, Error};
use crate::gr4j::{Gr4j, Gr4jParams};
use crate::hbv::{steps_reason, Hbv, HbvParams};
use crate::metrics::{kge, log_nse, nse};
use crate::number::Scalar;
use crate::text::{around, decimal};

verus! {

use crate::bands::{banded_fault, banded_series, banded_start, Layout};
use crate::error::{invalid, mismatch, Fault};
use crate::gr4j::{gr4j_fault, gr4j_series, gr4j_start};
use crate::hbv::{
    hbv_fault, hbv_forcing_fault, hbv_series, hbv_start, series_len, steps_text, temp_series,
};
use crate::metrics::{kge_result, log_nse_result, nse_result};
use crate::number::{one, zero, Arith};
use crate::text::decimal_text;

/// DDS configuration.
#[derive(Debug, Clone, Copy)]
pub struct DdsConfig<F> {
    /// Total objective evaluations (iteration budget), >= 2.
    pub max_iter: usize,
    /// Neighborhood perturbation size as a fraction of each parameter range.
    /// The robust default is 0.2.
    pub r: F,
    /// Seed of the random numbers; same seed + same inputs => same result.
    pub seed: u64,
}

impl<F: Scalar> Default for DdsConfig<F> {
    fn default() -> (c: Self)
        ensures
            c.max_iter == 1000,
            c.r == F::literal(1, 5),
            c.seed == 42,
    {
        DdsConfig { max_iter: 1000, r: F::ratio(1, 5), seed: 42 }
    }
}

/// SCE-UA configuration (Shuffled Complex Evolution; Duan et al. 1992).
#[derive(Debug, Clone, Copy)]
pub struct SceConfig {
    /// Number of complexes `p`, >= 1. More complexes = more global, slower.
    pub complexes: usize,
    /// Total objective-evaluation budget (>= initial population size).
    pub max_iter: usize,
    /// Seed of the random numbers; same seed + same inputs => same result.
    pub seed: u64,
}

impl Default for SceConfig {
    fn default() -> (c: Self)
        ensures
            c.complexes == 4,
            c.max_iter == 10_000,
            c.seed == 42,
    {
        SceConfig { complexes: 4, max_iter: 10_000, seed: 42 }
    }
}

/// A single optimization run, shared by both algorithms.
#[derive(Debug, Clone, Copy)]
pub enum Optimizer<F> {
    /// Dynamically Dimensioned Search.
    Dds(DdsConfig<F>),
    /// Shuffled Complex Evolution.
    Sce(SceConfig),
}

/// Outcome of an optimization run (shared by DDS and SCE-UA).
#[derive(Debug, Clone)]
pub struct DdsResult<F> {
    /// Best parameter vector found.
    pub params: Vec<F>,
    /// Objective value at `params` (in the maximization sense).
    pub value: F,
    /// Objective evaluations actually performed.
    pub evaluations: usize,
}

/// The first dimension at or after `i` whose bounds do not enclose a range.
pub open spec fn first_closed<F: Arith>(bounds: Seq<(F, F)>, i: nat) -> nat
    decreases bounds.len() - i,
{
    if i >= bounds.len() || !bounds[i as int].0.below(bounds[i as int].1) {
        i
    } else {
        first_closed(bounds, i + 1)
    }
}

/// Why the bounds are rejected, if they are.
pub open spec fn bounds_fault<F: Arith>(bounds: Seq<(F, F)>) -> Option<Fault> {
    let bad = first_closed(bounds, 0);
    if bounds.len() == 0 {
        Some(invalid("bounds"@, "at least one parameter is required"@))
    } else if bad < bounds.len() {
        Some(
            invalid(
                "bounds"@,
                "dimension "@ + decimal_text(bad) + ": lower bound must be < upper bound"@,
            ),
        )
    } else {
        None
    }
}

/// Validates box bounds: non-empty, every `lower < upper`, none undefined.
fn check_bounds<F: Scalar>(bounds: &[(F, F)]) -> (r: Result<(), Error>)
    ensures
        match bounds_fault(bounds@) {
            Some(fault) => r is Err && r->Err_0@ == fault,
            None => r is Ok,
        },
{
    if bounds.len() == 0 {
        return Err(reject("bounds", "at least one parameter is required"));
    }
    let mut i: usize = 0;
    while i < bounds.len()
        invariant
            i <= bounds@.len(),
            first_closed(bounds@, 0) == first_closed(bounds@, i as nat),
        decreases bounds@.len() - i,
    {
        if !bounds[i].0.less_than(bounds[i].1) {
            let reason = around("dimension ", i, ": lower bound must be < upper bound");
            return Err(reject("bounds", reason.as_str()));
        }
        i = i + 1;
    }
    Ok(())
}

/// Why a DDS search is rejected, if it is.
pub open spec fn dds_fault<F: Arith>(
    bounds: Seq<(F, F)>,
    init: Option<nat>,
    config: DdsConfig<F>,
) -> Option<Fault> {
    if bounds_fault(bounds) is Some {
        bounds_fault(bounds)
    } else if init is Some && init->0 != bounds.len() {
        Some(
            invalid(
                "init"@,
                "expected "@ + decimal_text(bounds.len()) + " values, got "@ + decimal_text(
                    init->0,
                ),
            ),
        )
    } else if config.max_iter < 2 {
        Some(invalid("max_iter"@, "iteration budget must be >= 2"@))
    } else if !(zero::<F>().below(config.r) && config.r.within(one())) {
        Some(invalid("r"@, "perturbation fraction must be in (0, 1]"@))
    } else {
        None
    }
}

/// Number of values of a starting solution, where there is one.
pub open spec fn init_len<F>(init: Option<&[F]>) -> Option<nat> {
    match init {
        Some(x0) => Some(x0@.len()),
        None => None,
    }
}

/// What an objective value counts for: values that are not finite are undefined,
/// and stand for rejected candidates.
pub open spec fn counted<F: Arith>(value: F) -> F {
    if value.finite() {
        value
    } else {
        F::nothing()
    }
}

/// What an objective value counts for in a search.
pub fn count_value<F: Scalar>(value: F) -> (r: F)
    ensures
        r == counted(value),
{
    if value.is_finite() {
        value
    } else {
        F::nan()
    }
}

/// What a search maximizes: an objective whose values that are not finite count
/// as undefined. The engine evaluates candidates through it, so that the search
/// tolerates numerically degenerate parameter combinations.
#[derive(Debug, Clone, Copy)]
pub struct Target<O> {
    /// The objective.
    pub objective: O,
}

impl<O> Target<O> {
    /// What the candidate `x` counts for: a value that the objective gives to
    /// it, undefined where that is not finite. The objective can be called
    /// afterwards wherever it could be called before.
    pub fn evaluate<F: Scalar>(&mut self, x: &[F]) -> (r: F) where O: FnMut(&[F]) -> F
        requires
            call_requires(old(self).objective, (x,)),
        ensures
            exists|v: F| #[trigger]
                call_ensures(old(self).objective, (x,), v) && r == counted(v),
            forall|y: &[F]|
                call_requires(old(self).objective, (y,)) ==> #[trigger] call_requires(
                    final(self).objective,
                    (y,),
                ),
    {
        let value = (self.objective)(x);
        count_value(value)
    }
}

/// What a search comes to: the fault it is rejected for, or an answer of the
/// engine to exactly this search.
pub open spec fn search_outcome<F, P, E>(
    fault: Option<Fault>,
    engine: E,
    bounds: &[(F, F)],
    init: Option<&[F]>,
    optimizer: Optimizer<F>,
    problem: P,
    r: Result<DdsResult<F>, Error>,
) -> bool where E: FnOnce(&[(F, F)], Option<&[F]>, Optimizer<F>, P) -> DdsResult<F> {
    match fault {
        Some(fault) => r is Err && r->Err_0@ == fault,
        None => r is Ok && call_ensures(engine, (bounds, init, optimizer, problem), r->Ok_0),
    }
}

/// Checks a DDS search.
fn check_dds<F: Scalar>(
    bounds: &[(F, F)],
    init: Option<&[F]>,
    config: &DdsConfig<F>,
) -> (r: Result<(), Error>)
    ensures
        match dds_fault(bounds@, init_len(init), *config) {
            Some(fault) => r is Err && r->Err_0@ == fault,
            None => r is Ok,
        },
{
    if let Err(e) = check_bounds(bounds) {
        return Err(e);
    }
    if let Some(x0) = init {
        if x0.len() != bounds.len() {
            let mut reason = around("expected ", bounds.len(), " values, got ");
            reason.append(decimal(x0.len()).as_str());
            return Err(reject("init", reason.as_str()));
        }
    }
    if config.max_iter < 2 {
        return Err(reject("max_iter", "iteration budget must be >= 2"));
    }
    if !(F::ratio(0, 1).less_than(config.r) && config.r.at_most(F::ratio(1, 1))) {
        return Err(reject("r", "perturbation fraction must be in (0, 1]"));
    }
    Ok(())
}

/// Maximizes `objective` within `bounds` using DDS.
///
/// `init` is the starting solution; when `None`, the engine draws one.
/// Objective evaluations returning non-finite values are treated as rejected
/// candidates: the engine gets the objective as a [`Target`], which gives it
/// the undefined number for them. So the search tolerates numerically
/// degenerate parameter combinations.
pub fn dds_maximize<F: Scalar, O, E>(
    bounds: &[(F, F)],
    init: Option<&[F]>,
    config: &DdsConfig<F>,
    objective: O,
    engine: E,
) -> (r: Result<DdsResult<F>, Error>) where
    O: FnMut(&[F]) -> F,
    E: FnOnce(&[(F, F)], Option<&[F]>, Optimizer<F>, Target<O>) -> DdsResult<F>,

    requires
        dds_fault(bounds@, init_len(init), *config) is None ==> call_requires(
            engine,
            (bounds, init, Optimizer::Dds(*config), (Target { objective })),
        ),
    ensures
        search_outcome(
            dds_fault(bounds@, init_len(init), *config),
            engine,
            bounds,
            init,
            Optimizer::Dds(*config),
            (Target { objective }),
            r,
        ),
{
    if let Err(e) = check_dds(bounds, init, config) {
        return Err(e);
    }
    Ok(engine(bounds, init, Optimizer::Dds(*config), Target { objective }))
}

/// Size of the initial population of SCE-UA in `n` dimensions: `2n + 1` points
/// in each complex.
pub open spec fn population(config: SceConfig, n: nat) -> nat {
    config.complexes as nat * (2 * n + 1)
}

/// Why a SCE-UA search is rejected, if it is.
pub open spec fn sce_fault<F: Arith>(bounds: Seq<(F, F)>, config: SceConfig) -> Option<Fault> {
    if bounds_fault(bounds) is Some {
        bounds_fault(bounds)
    } else if config.complexes == 0 {
        Some(invalid("complexes"@, "need at least one complex"@))
    } else if config.max_iter < population(config, bounds.len()) {
        Some(
            invalid(
                "max_iter"@,
                "budget must be >= initial population size ("@ + decimal_text(
                    population(config, bounds.len()),
                ) + ")"@,
            ),
        )
    } else {
        None
    }
}

/// Checks a SCE-UA search.
fn check_sce<F: Scalar>(bounds: &[(F, F)], config: &SceConfig) -> (r: Result<(), Error>)
    requires
        bounds_fault(bounds@) is None ==> population(*config, bounds@.len()) <= usize::MAX,
    ensures
        match sce_fault(bounds@, *config) {
            Some(fault) => r is Err && r->Err_0@ == fault,
            None => r is Ok,
        },
{
    if let Err(e) = check_bounds(bounds) {
        return Err(e);
    }
    if config.complexes == 0 {
        return Err(reject("complexes", "need at least one complex"));
    }
    let n: usize = bounds.len();
    proof {
        let c = config.complexes as int;
        let m = 2 * n + 1;
        assert(m <= c * m) by (nonlinear_arith)
            requires
                c >= 1,
                m >= 0,
        ;
    }
    let pop_size: usize = config.complexes * (2 * n + 1);
    if config.max_iter < pop_size {
        let reason = around("budget must be >= initial population size (", pop_size, ")");
        return Err(reject("max_iter", reason.as_str()));
    }
    Ok(())
}

/// Maximizes `objective` within `bounds` using SCE-UA (Duan, Sorooshian &
/// Gupta 1992, Water Resources Research 28, 1015-1031): a robust global
/// optimizer that partitions a random population into complexes, evolves each
/// by competitive complex evolution (a reflection/contraction simplex), then
/// shuffles.
///
/// Non-finite objective values are treated as the worst possible (rejected), so
/// degenerate parameter combinations are tolerated: the engine gets the
/// objective as a [`Target`], which gives it the undefined number for them. The
/// budget `max_iter` counts objective evaluations, like [`dds_maximize`].
pub fn sce_maximize<F: Scalar, O, E>(
    bounds: &[(F, F)],
    config: &SceConfig,
    objective: O,
    engine: E,
) -> (r: Result<DdsResult<F>, Error>) where
    O: FnMut(&[F]) -> F,
    E: FnOnce(&[(F, F)], Option<&[F]>, Optimizer<F>, Target<O>) -> DdsResult<F>,

    requires
        bounds_fault(bounds@) is None ==> population(*config, bounds@.len()) <= usize::MAX,
        sce_fault(bounds@, *config) is None ==> call_requires(
            engine,
            (bounds, None::<&[F]>, Optimizer::Sce(*config), (Target { objective })),
        ),
    ensures
        search_outcome(
            sce_fault(bounds@, *config),
            engine,
            bounds,
            None,
            Optimizer::Sce(*config),
            (Target { objective }),
            r,
        ),
{
    if let Err(e) = check_sce(bounds, config) {
        return Err(e);
    }
    Ok(engine(bounds, None, Optimizer::Sce(*config), Target { objective }))
}

/// Why a search is rejected, if it is.
pub open spec fn search_fault<F: Arith>(
    optimizer: Optimizer<F>,
    bounds: Seq<(F, F)>,
) -> Option<Fault> {
    match optimizer {
        Optimizer::Dds(c) => dds_fault(bounds, None, c),
        Optimizer::Sce(c) => sce_fault(bounds, c),
    }
}

/// Whether the size of the initial population in `n` dimensions can be counted.
pub open spec fn population_fits<F>(optimizer: Optimizer<F>, n: nat) -> bool {
    match optimizer {
        Optimizer::Dds(_) => true,
        Optimizer::Sce(c) => population(c, n) <= usize::MAX,
    }
}

impl<F: Scalar> Optimizer<F> {
    /// Checks a search without a starting solution.
    fn check(&self, bounds: &[(F, F)]) -> (r: Result<(), Error>)
        requires
            bounds_fault(bounds@) is None ==> population_fits(*self, bounds@.len()),
        ensures
            match search_fault(*self, bounds@) {
                Some(fault) => r is Err && r->Err_0@ == fault,
                None => r is Ok,
            },
    {
        match self {
            Optimizer::Dds(c) => check_dds(bounds, None, c),
            Optimizer::Sce(c) => check_sce(bounds, c),
        }
    }

    /// Maximizes `objective` within `bounds` with the chosen algorithm.
    pub fn maximize<O, E>(&self, bounds: &[(F, F)], objective: O, engine: E) -> (r: Result<
        DdsResult<F>,
        Error,
    >) where
        O: FnMut(&[F]) -> F,
        E: FnOnce(&[(F, F)], Option<&[F]>, Optimizer<F>, Target<O>) -> DdsResult<F>,

        requires
            bounds_fault(bounds@) is None ==> population_fits(*self, bounds@.len()),
            search_fault(*self, bounds@) is None ==> call_requires(
                engine,
                (bounds, None::<&[F]>, *self, (Target { objective })),
            ),
        ensures
            search_outcome(
                search_fault(*self, bounds@),
                engine,
                bounds,
                None,
                *self,
                (Target { objective }),
                r,
            ),
    {
        match self {
            Optimizer::Dds(c) => dds_maximize(bounds, None, c, objective, engine),
            Optimizer::Sce(c) => sce_maximize(bounds, c, objective, engine),
        }
    }
}

/// Calibration objective.
#[derive(Debug, Clone, Copy, PartialEq, Eq)]
pub enum Objective {
    /// Nash-Sutcliffe efficiency.
    Nse,
    /// Kling-Gupta efficiency.
    Kge,
    /// Nash-Sutcliffe efficiency of the logarithms.
    LogNse,
}

/// Value of the objective, where its metric is defined.
pub open spec fn objective_value<F: Arith>(
    objective: Objective,
    obs: Seq<F>,
    sim: Seq<F>,
) -> Option<F> {
    let result = match objective {
        Objective::Nse => nse_result(obs, sim),
        Objective::Kge => kge_result(obs, sim),
        Objective::LogNse => log_nse_result(obs, sim),
    };
    match result {
        Ok(v) => Some(v),
        Err(_) => None,
    }
}

impl Objective {
    /// Value of the objective, where its metric is defined.
    pub fn evaluate<F: Scalar>(self, obs: &[F], sim: &[F]) -> (r: Option<F>)
        ensures
            r == objective_value(self, obs@, sim@),
    {
        let result = match self {
            Objective::Nse => nse(obs, sim),
            Objective::Kge => kge(obs, sim),
            Objective::LogNse => log_nse(obs, sim),
        };
        match result {
            Ok(v) => Some(v),
            Err(_) => None,
        }
    }
}

/// A series without its first `warmup` steps.
pub open spec fn after_warmup<F>(s: Seq<F>, warmup: nat) -> Seq<F> {
    s.subrange(warmup as int, s.len() as int)
}

/// Value of the objective after the first `warmup` steps; undefined where the
/// metric is undefined or not finite.
pub open spec fn score<F: Arith>(
    objective: Objective,
    qobs: Seq<F>,
    qsim: Seq<F>,
    warmup: nat,
) -> F {
    match objective_value(objective, after_warmup(qobs, warmup), after_warmup(qsim, warmup)) {
        Some(v) => counted(v),
        None => F::nothing(),
    }
}

/// Scores a simulation after the first `warmup` steps.
fn score_after<F: Scalar>(objective: Objective, qobs: &[F], qsim: &[F], warmup: usize) -> (r: F)
    requires
        warmup <= qobs@.len(),
        warmup <= qsim@.len(),
    ensures
        r == score(objective, qobs@, qsim@, warmup as nat),
{
    let obs = slice_subrange(qobs, warmup, qobs.len());
    let sim = slice_subrange(qsim, warmup, qsim.len());
    match objective.evaluate(obs, sim) {
        Some(v) => count_value(v),
        None => F::nan(),
    }
}

/// The text of a warm-up that leaves nothing to compare.
pub open spec fn warmup_text(warmup: nat, steps: nat) -> Seq<char> {
    "warm-up ("@ + decimal_text(warmup) + ") must be shorter than the series ("@ + decimal_text(
        steps,
    ) + ")"@
}

/// Writes the reason for a warm-up that leaves nothing to compare.
fn warmup_reason(warmup: usize, steps: usize) -> (r: String)
    ensures
        r@ == warmup_text(warmup as nat, steps as nat),
{
    let mut r = around("warm-up (", warmup, ") must be shorter than the series (");
    r.append(decimal(steps).as_str());
    r.append(")");
    r
}

/// Why the series of a calibration are rejected, if they are.
pub open spec fn series_fault(precip: nat, pet: nat, qobs: nat, warmup: nat) -> Option<Fault> {
    if precip != pet {
        Some(mismatch(precip, pet))
    } else if qobs != precip {
        Some(invalid("qobs"@, steps_text(precip, qobs)))
    } else if warmup >= precip {
        Some(invalid("warmup"@, warmup_text(warmup, precip)))
    } else {
        None
    }
}

/// Checks the series of a calibration.
fn check_series(precip: usize, pet: usize, qobs: usize, warmup: usize) -> (r: Result<(), Error>)
    ensures
        match series_fault(precip as nat, pet as nat, qobs as nat, warmup as nat) {
            Some(fault) => r is Err && r->Err_0@ == fault,
            None => r is Ok,
        },
{
    if precip != pet {
        return Err(Error::ForcingLengthMismatch { precip, pet });
    }
    if qobs != precip {
        let reason = steps_reason(precip, qobs);
        return Err(reject("qobs", reason.as_str()));
    }
    if warmup >= precip {
        let reason = warmup_reason(warmup, precip);
        return Err(reject("warmup", reason.as_str()));
    }
    Ok(())
}

/// One fault or, failing that, another.
pub open spec fn first_of(a: Option<Fault>, b: Option<Fault>) -> Option<Fault> {
    if a is Some {
        a
    } else {
        b
    }
}

/// Whether the engine takes on the search within `bounds` and answers with one
/// value for each of them.
pub open spec fn takes_on<F, O, E>(
    engine: E,
    bounds: Seq<(F, F)>,
    optimizer: Optimizer<F>,
    problem: O,
) -> bool where E: FnOnce(&[(F, F)], Option<&[F]>, Optimizer<F>, O) -> DdsResult<F> {
    &&& forall|b: &[(F, F)]|
        b@ == bounds ==> #[trigger] call_requires(engine, (b, None::<&[F]>, optimizer, problem))
    &&& forall|out: DdsResult<F>| #[trigger]
        answers(engine, bounds, optimizer, problem, out) ==> out.params@.len() == bounds.len()
}

/// Whether `out` is an answer of the engine to the search within `bounds`,
/// with no starting solution given.
pub open spec fn answers<F, O, E>(
    engine: E,
    bounds: Seq<(F, F)>,
    optimizer: Optimizer<F>,
    problem: O,
    out: DdsResult<F>,
) -> bool where E: FnOnce(&[(F, F)], Option<&[F]>, Optimizer<F>, O) -> DdsResult<F> {
    exists|b: &[(F, F)]|
        b@ == bounds && #[trigger] call_ensures(
            engine,
            (b, None::<&[F]>, optimizer, problem),
            out,
        )
}

/// Search bounds of GR4J.
pub open spec fn gr4j_bounds<F: Arith>() -> Seq<(F, F)> {
    seq![
        (F::literal(1, 1), F::literal(2500, 1)),
        (F::literal(-5, 1), F::literal(5, 1)),
        (F::literal(1, 1), F::literal(1000, 1)),
        (F::literal(1, 2), F::literal(10, 1)),
    ]
}

/// Default GR4J search bounds, wide enough for most catchments
/// (x1, x2, x3, x4) = ([1, 2500] mm, [-5, 5] mm/d, [1, 1000] mm, [0.5, 10] d).
pub fn gr4j_default_bounds<F: Scalar>() -> (r: [(F, F); 4])
    ensures
        r@ == gr4j_bounds::<F>(),
{
    let r = [
        (F::ratio(1, 1), F::ratio(2500, 1)),
        (F::ratio(-5, 1), F::ratio(5, 1)),
        (F::ratio(1, 1), F::ratio(1000, 1)),
        (F::ratio(1, 2), F::ratio(10, 1)),
    ];
    assert(r@ =~= gr4j_bounds::<F>());
    r
}

/// Result of a GR4J calibration.
#[derive(Debug, Clone)]
pub struct Gr4jCalibration<F> {
    /// Best parameters found.
    pub params: Gr4jParams<F>,
    /// Objective value over the post-warm-up period.
    pub value: F,
    /// Objective evaluations performed.
    pub evaluations: usize,
}

/// What a GR4J calibration maximizes: the fit of the simulation to the
/// observed discharge `qobs` after `warmup` steps.
#[derive(Debug, Clone, Copy)]
pub struct Gr4jProblem<'a, F> {
    /// Precipitation.
    pub precip: &'a [F],
    /// Potential evapotranspiration.
    pub pet: &'a [F],
    /// Observed discharge; gaps are undefined numbers.
    pub qobs: &'a [F],
    /// Steps left out of the comparison.
    pub warmup: usize,
    /// Metric of the fit.
    pub objective: Objective,
}

/// The GR4J parameters of a candidate.
pub open spec fn gr4j_candidate<F>(x: Seq<F>) -> Gr4jParams<F> {
    Gr4jParams { x1: x[0], x2: x[1], x3: x[2], x4: x[3] }
}

/// Reads a candidate as GR4J parameters.
fn gr4j_params_from_vector<F: Scalar>(x: &[F]) -> (r: Gr4jParams<F>)
    requires
        x@.len() >= 4,
    ensures
        r == gr4j_candidate(x@),
{
    Gr4jParams { x1: x[0], x2: x[1], x3: x[2], x4: x[3] }
}

/// Worth of a candidate: the fit of its parameters.
pub open spec fn gr4j_worth<F: Arith>(
    precip: Seq<F>,
    pet: Seq<F>,
    qobs: Seq<F>,
    warmup: nat,
    objective: Objective,
    x: Seq<F>,
) -> F {
    gr4j_fit(precip, pet, qobs, warmup, objective, gr4j_candidate(x))
}

/// Fit of GR4J parameters: the objective of their simulation after the warm-up,
/// undefined where the parameters are out of range or the metric is undefined.
pub open spec fn gr4j_fit<F: Arith>(
    precip: Seq<F>,
    pet: Seq<F>,
    qobs: Seq<F>,
    warmup: nat,
    objective: Objective,
    prm: Gr4jParams<F>,
) -> F {
    if gr4j_fault(prm) is Some {
        F::nothing()
    } else {
        score(objective, qobs, gr4j_series(prm, gr4j_start(prm), precip, pet), warmup)
    }
}

impl<'a, F: Scalar> Gr4jProblem<'a, F> {
    /// Whether the series match and the warm-up leaves steps to compare.
    pub open spec fn wf(self) -> bool {
        series_fault(
            self.precip@.len(),
            self.pet@.len(),
            self.qobs@.len(),
            self.warmup as nat,
        ) is None
    }

    /// Scores the candidate `x`.
    pub fn evaluate(&self, x: &[F]) -> (r: F)
        requires
            self.wf(),
            x@.len() >= 4,
        ensures
            r == gr4j_worth(
                self.precip@,
                self.pet@,
                self.qobs@,
                self.warmup as nat,
                self.objective,
                x@,
            ),
    {
        let model = match Gr4j::new(gr4j_params_from_vector(x)) {
            Ok(model) => model,
            Err(_) => {
                return F::nan();
            },
        };
        match model.run(self.precip, self.pet) {
            Ok(qsim) => score_after(self.objective, self.qobs, qsim.as_slice(), self.warmup),
            Err(_) => F::nan(),
        }
    }
}

/// Why a GR4J calibration is rejected, if it is.
pub open spec fn gr4j_calibration_fault<F: Arith>(
    problem: Gr4jProblem<F>,
    bounds: Seq<(F, F)>,
    optimizer: Optimizer<F>,
) -> Option<Fault> {
    first_of(
        series_fault(
            problem.precip@.len(),
            problem.pet@.len(),
            problem.qobs@.len(),
            problem.warmup as nat,
        ),
        search_fault(optimizer, bounds),
    )
}

/// Whether a calibration reports an answer of the engine to the search for the
/// problem within `bounds`.
pub open spec fn gr4j_reported<'a, F, E>(
    engine: E,
    bounds: Seq<(F, F)>,
    optimizer: Optimizer<F>,
    problem: Gr4jProblem<'a, F>,
    c: Gr4jCalibration<F>,
) -> bool where
    E: FnOnce(&[(F, F)], Option<&[F]>, Optimizer<F>, Gr4jProblem<'a, F>) -> DdsResult<F>,
 {
    exists|out: DdsResult<F>|
        {
            &&& #[trigger] answers(engine, bounds, optimizer, problem, out)
            &&& c.params == gr4j_candidate(out.params@)
            &&& c.value == out.value
            &&& c.evaluations == out.evaluations
        }
}

/// Calibrates GR4J on (precip, pet, qobs) maximizing `objective`, skipping
/// `warmup` initial steps in the objective. `qobs` may contain undefined gaps.
pub fn calibrate_gr4j<'a, F: Scalar, E>(
    precip: &'a [F],
    pet: &'a [F],
    qobs: &'a [F],
    warmup: usize,
    objective: Objective,
    bounds: &[(F, F); 4],
    optimizer: &Optimizer<F>,
    engine: E,
) -> (r: Result<Gr4jCalibration<F>, Error>) where
    E: FnOnce(&[(F, F)], Option<&[F]>, Optimizer<F>, Gr4jProblem<'a, F>) -> DdsResult<F>,

    requires
        series_fault(precip@.len(), pet@.len(), qobs@.len(), warmup as nat) is None && bounds_fault(
            bounds@,
        ) is None ==> population_fits(*optimizer, 4),
        ({
            let problem = Gr4jProblem { precip, pet, qobs, warmup, objective };
            gr4j_calibration_fault(problem, bounds@, *optimizer) is None ==> takes_on(
                engine,
                bounds@,
                *optimizer,
                problem,
            )
        }),
    ensures
        ({
            let problem = Gr4jProblem { precip, pet, qobs, warmup, objective };
            match gr4j_calibration_fault(problem, bounds@, *optimizer) {
                Some(fault) => r is Err && r->Err_0@ == fault,
                None => r is Ok && gr4j_reported(engine, bounds@, *optimizer, problem, r->Ok_0),
            }
        }),
{
    if let Err(e) = check_series(precip.len(), pet.len(), qobs.len(), warmup) {
        return Err(e);
    }
    let problem = Gr4jProblem { precip, pet, qobs, warmup, objective };
    if let Err(e) = optimizer.check(bounds.as_slice()) {
        return Err(e);
    }
    let out = engine(bounds.as_slice(), None, *optimizer, problem);
    assert(answers(engine, bounds@, *optimizer, problem, out));
    Ok(
        Gr4jCalibration {
            params: gr4j_params_from_vector(out.params.as_slice()),
            value: out.value,
            evaluations: out.evaluations,
        },
    )
}

/// Search bounds of the snow routine: TT, CFMAX, SFCF. TT and SFCF reach
/// further than the HBV-light convention (2.5 deg C either side of zero and
/// 0.4 to 1.4): with a catchment-mean temperature over high-relief basins the
/// effective rain/snow threshold rises, and SFCF must compensate undercatch at
/// altitude.
pub open spec fn snow_bounds<F: Arith>() -> Seq<(F, F)> {
    seq![
        (F::literal(-3, 1), F::literal(4, 1)),
        (F::literal(1, 2), F::literal(10, 1)),
        (F::literal(2, 5), F::literal(2, 1)),
    ]
}

/// Search bounds below the snow routine: FC, LP, BETA, K0, K1, K2, UZL, PERC,
/// MAXBAS. The upper bound of PERC is generous: wet catchments saturate the
/// common 0-6 range.
pub open spec fn ground_bounds<F: Arith>() -> Seq<(F, F)> {
    seq![
        (F::literal(50, 1), F::literal(700, 1)),
        (F::literal(3, 10), F::literal(1, 1)),
        (F::literal(1, 1), F::literal(6, 1)),
        (F::literal(1, 20), F::literal(99, 100)),
        (F::literal(1, 100), F::literal(1, 2)),
        (F::literal(1, 1000), F::literal(1, 5)),
        (F::literal(0, 1), F::literal(100, 1)),
        (F::literal(0, 1), F::literal(10, 1)),
        (F::literal(1, 1), F::literal(7, 1)),
    ]
}

/// Search bounds of HBV.
pub open spec fn hbv_bounds<F: Arith>(with_snow: bool) -> Seq<(F, F)> {
    if with_snow {
        snow_bounds::<F>() + ground_bounds::<F>()
    } else {
        ground_bounds::<F>()
    }
}

/// Default HBV search bounds (HBV-light conventional ranges).
///
/// Without snow (9 parameters): FC, LP, BETA, K0, K1, K2, UZL, PERC, MAXBAS.
/// With snow (12 parameters): TT, CFMAX, SFCF prepended; CFR and CWH stay at
/// their HBV-light defaults (0.05 and 0.1).
pub fn hbv_default_bounds<F: Scalar>(with_snow: bool) -> (r: Vec<(F, F)>)
    ensures
        r@ == hbv_bounds::<F>(with_snow),
{
    let mut bounds: Vec<(F, F)> = Vec::new();
    if with_snow {
        bounds.push((F::ratio(-3, 1), F::ratio(4, 1)));
        bounds.push((F::ratio(1, 2), F::ratio(10, 1)));
        bounds.push((F::ratio(2, 5), F::ratio(2, 1)));
    }
    bounds.push((F::ratio(50, 1), F::ratio(700, 1)));
    bounds.push((F::ratio(3, 10), F::ratio(1, 1)));
    bounds.push((F::ratio(1, 1), F::ratio(6, 1)));
    bounds.push((F::ratio(1, 20), F::ratio(99, 100)));
    bounds.push((F::ratio(1, 100), F::ratio(1, 2)));
    bounds.push((F::ratio(1, 1000), F::ratio(1, 5)));
    bounds.push((F::ratio(0, 1), F::ratio(100, 1)));
    bounds.push((F::ratio(0, 1), F::ratio(10, 1)));
    bounds.push((F::ratio(1, 1), F::ratio(7, 1)));
    assert(bounds@ =~= hbv_bounds::<F>(with_snow));
    bounds
}

/// Bounds for the two lapse parameters appended when calibrating
/// [`HbvBands`]: TCALT (deg C/100 m), the range of environmental lapse rates,
/// and PCALT (fraction/100 m).
pub open spec fn lapse_bounds<F: Arith>() -> Seq<(F, F)> {
    seq![
        (F::literal(0, 1), F::literal(6, 5)),
        (F::literal(0, 1), F::literal(3, 10)),
    ]
}

/// Search bounds of the semi-distributed model: HBV with snow, then TCALT and
/// PCALT.
pub open spec fn hbv_bands_bounds<F: Arith>() -> Seq<(F, F)> {
    hbv_bounds::<F>(true) + lapse_bounds::<F>()
}

/// The search bounds of the semi-distributed model.
fn banded_search_bounds<F: Scalar>() -> (r: Vec<(F, F)>)
    ensures
        r@ == hbv_bands_bounds::<F>(),
{
    let mut bounds = hbv_default_bounds::<F>(true);
    bounds.push((F::ratio(0, 1), F::ratio(6, 5)));
    bounds.push((F::ratio(0, 1), F::ratio(3, 10)));
    assert(bounds@ =~= hbv_bands_bounds::<F>());
    bounds
}

/// The HBV parameters of a candidate. Without snow the snow parameters are
/// placeholders, since the routine is bypassed.
pub open spec fn hbv_candidate<F: Arith>(x: Seq<F>, with_snow: bool) -> HbvParams<F> {
    let rest = if with_snow {
        x.skip(3)
    } else {
        x
    };
    HbvParams {
        tt: if with_snow { x[0] } else { zero() },
        cfmax: if with_snow { x[1] } else { F::literal(3, 1) },
        sfcf: if with_snow { x[2] } else { one() },
        cfr: F::literal(1, 20),
        cwh: F::literal(1, 10),
        fc: rest[0],
        lp: rest[1],
        beta: rest[2],
        k0: rest[3],
        k1: rest[4],
        k2: rest[5],
        uzl: rest[6],
        perc: rest[7],
        maxbas: rest[8],
    }
}

/// Number of HBV parameters that are searched for.
pub open spec fn hbv_dimensions(with_snow: bool) -> nat {
    if with_snow {
        12
    } else {
        9
    }
}

/// Reads a candidate as HBV parameters.
pub fn hbv_params_from_vector<F: Scalar>(x: &[F], with_snow: bool) -> (r: HbvParams<F>)
    requires
        x@.len() >= hbv_dimensions(with_snow),
    ensures
        r == hbv_candidate(x@, with_snow),
{
    let (tt, cfmax, sfcf) = if with_snow {
        (x[0], x[1], x[2])
    } else {
        (F::ratio(0, 1), F::ratio(3, 1), F::ratio(1, 1))
    };
    let rest = if with_snow {
        slice_subrange(x, 3, x.len())
    } else {
        x
    };
    HbvParams {
        tt,
        cfmax,
        sfcf,
        cfr: F::ratio(1, 20),
        cwh: F::ratio(1, 10),
        fc: rest[0],
        lp: rest[1],
        beta: rest[2],
        k0: rest[3],
        k1: rest[4],
        k2: rest[5],
        uzl: rest[6],
        perc: rest[7],
        maxbas: rest[8],
    }
}

/// Result of an HBV calibration.
#[derive(Debug, Clone)]
pub struct HbvCalibration<F> {
    /// Best parameters found.
    pub params: HbvParams<F>,
    /// Objective value over the post-warm-up period.
    pub value: F,
    /// Objective evaluations performed.
    pub evaluations: usize,
}

/// What an HBV calibration maximizes: the fit of the simulation to the
/// observed discharge `qobs` after `warmup` steps.
#[derive(Debug, Clone, Copy)]
pub struct HbvProblem<'a, F> {
    /// Precipitation.
    pub precip: &'a [F],
    /// Potential evapotranspiration.
    pub pet: &'a [F],
    /// Air temperature, where there is snow to model.
    pub temp: Option<&'a [F]>,
    /// Observed discharge; gaps are undefined numbers.
    pub qobs: &'a [F],
    /// Steps left out of the comparison.
    pub warmup: usize,
    /// Metric of the fit.
    pub objective: Objective,
}

/// Worth of a candidate: the fit of its parameters.
pub open spec fn hbv_worth<F: Arith>(
    precip: Seq<F>,
    pet: Seq<F>,
    temp: Option<Seq<F>>,
    qobs: Seq<F>,
    warmup: nat,
    objective: Objective,
    x: Seq<F>,
) -> F {
    hbv_fit(precip, pet, temp, qobs, warmup, objective, hbv_candidate(x, temp is Some))
}

/// Fit of HBV parameters: the objective of their simulation after the warm-up,
/// undefined where the parameters are out of range, the temperature has another
/// length or the metric is undefined.
pub open spec fn hbv_fit<F: Arith>(
    precip: Seq<F>,
    pet: Seq<F>,
    temp: Option<Seq<F>>,
    qobs: Seq<F>,
    warmup: nat,
    objective: Objective,
    prm: HbvParams<F>,
) -> F {
    if hbv_fault(prm) is Some || hbv_forcing_fault(
        precip.len(),
        pet.len(),
        series_len(temp),
    ) is Some {
        F::nothing()
    } else {
        score(objective, qobs, hbv_series(prm, hbv_start(prm), precip, pet, temp), warmup)
    }
}

impl<'a, F: Scalar> HbvProblem<'a, F> {
    /// Whether the series match and the warm-up leaves steps to compare.
    pub open spec fn wf(self) -> bool {
        series_fault(
            self.precip@.len(),
            self.pet@.len(),
            self.qobs@.len(),
            self.warmup as nat,
        ) is None
    }

    /// Scores the candidate `x`.
    pub fn evaluate(&self, x: &[F]) -> (r: F)
        requires
            self.wf(),
            x@.len() >= hbv_dimensions(self.temp is Some),
        ensures
            r == hbv_worth(
                self.precip@,
                self.pet@,
                temp_series(self.temp),
                self.qobs@,
                self.warmup as nat,
                self.objective,
                x@,
            ),
    {
        let model = match Hbv::new(hbv_params_from_vector(x, self.temp.is_some())) {
            Ok(model) => model,
            Err(_) => {
                return F::nan();
            },
        };
        match model.run(self.precip, self.pet, self.temp) {
            Ok(qsim) => score_after(self.objective, self.qobs, qsim.as_slice(), self.warmup),
            Err(_) => F::nan(),
        }
    }
}

/// Why an HBV calibration is rejected, if it is.
pub open spec fn hbv_calibration_fault<F: Arith>(
    problem: HbvProblem<F>,
    optimizer: Optimizer<F>,
) -> Option<Fault> {
    first_of(
        series_fault(
            problem.precip@.len(),
            problem.pet@.len(),
            problem.qobs@.len(),
            problem.warmup as nat,
        ),
        search_fault(optimizer, hbv_bounds(problem.temp is Some)),
    )
}

/// Whether a calibration reports an answer of the engine to the search for the
/// problem within the default bounds.
pub open spec fn hbv_reported<'a, F: Arith, E>(
    engine: E,
    optimizer: Optimizer<F>,
    problem: HbvProblem<'a, F>,
    c: HbvCalibration<F>,
) -> bool where
    E: FnOnce(&[(F, F)], Option<&[F]>, Optimizer<F>, HbvProblem<'a, F>) -> DdsResult<F>,
 {
    let with_snow = problem.temp is Some;
    exists|out: DdsResult<F>|
        {
            &&& #[trigger] answers(engine, hbv_bounds(with_snow), optimizer, problem, out)
            &&& c.params == hbv_candidate(out.params@, with_snow)
            &&& c.value == out.value
            &&& c.evaluations == out.evaluations
        }
}

/// Calibrates HBV-light on (precip, pet, temp, qobs) maximizing `objective`,
/// skipping `warmup` initial steps. When `temp` is `Some`, the snow-routine
/// parameters (TT, CFMAX, SFCF) are calibrated too. `qobs` may contain
/// undefined gaps.
pub fn calibrate_hbv<'a, F: Scalar, E>(
    precip: &'a [F],
    pet: &'a [F],
    temp: Option<&'a [F]>,
    qobs: &'a [F],
    warmup: usize,
    objective: Objective,
    optimizer: &Optimizer<F>,
    engine: E,
) -> (r: Result<HbvCalibration<F>, Error>) where
    E: FnOnce(&[(F, F)], Option<&[F]>, Optimizer<F>, HbvProblem<'a, F>) -> DdsResult<F>,

    requires
        series_fault(precip@.len(), pet@.len(), qobs@.len(), warmup as nat) is None && bounds_fault(
            hbv_bounds::<F>(temp is Some),
        ) is None ==> population_fits(*optimizer, hbv_dimensions(temp is Some)),
        ({
            let problem = HbvProblem { precip, pet, temp, qobs, warmup, objective };
            hbv_calibration_fault(problem, *optimizer) is None ==> takes_on(
                engine,
                hbv_bounds(temp is Some),
                *optimizer,
                problem,
            )
        }),
    ensures
        ({
            let problem = HbvProblem { precip, pet, temp, qobs, warmup, objective };
            match hbv_calibration_fault(problem, *optimizer) {
                Some(fault) => r is Err && r->Err_0@ == fault,
                None => r is Ok && hbv_reported(engine, *optimizer, problem, r->Ok_0),
            }
        }),
{
    if let Err(e) = check_series(precip.len(), pet.len(), qobs.len(), warmup) {
        return Err(e);
    }
    let with_snow = temp.is_some();
    let bounds = hbv_default_bounds::<F>(with_snow);
    let problem = HbvProblem { precip, pet, temp, qobs, warmup, objective };
    if let Err(e) = optimizer.check(bounds.as_slice()) {
        return Err(e);
    }
    let out = engine(bounds.as_slice(), None, *optimizer, problem);
    assert(answers(engine, bounds@, *optimizer, problem, out));
    Ok(
        HbvCalibration {
            params: hbv_params_from_vector(out.params.as_slice(), with_snow),
            value: out.value,
            evaluations: out.evaluations,
        },
    )
}

/// Result of a semi-distributed calibration: HBV parameters plus the fitted
/// lapse rates and the band geometry they apply to.
#[derive(Debug, Clone)]
pub struct HbvBandsCalibration<F> {
    /// Best parameters found.
    pub params: HbvParams<F>,
    /// The band geometry with the best lapse rates found.
    pub bands: ElevationBands<F>,
    /// Objective value over the post-warm-up period.
    pub value: F,
    /// Objective evaluations performed.
    pub evaluations: usize,
}

/// A layout with the lapse rates of a candidate.
pub open spec fn with_lapse<F>(cfg: Layout<F>, x: Seq<F>) -> Layout<F> {
    Layout {
        bands: cfg.bands,
        reference_elevation: cfg.reference_elevation,
        tcalt: x[12],
        pcalt: x[13],
    }
}

/// Copies the geometry of `bands` under the lapse rates of a candidate.
fn lapsed<F: Scalar>(bands: &ElevationBands<F>, x: &[F]) -> (r: ElevationBands<F>)
    requires
        x@.len() >= 14,
    ensures
        r@ == with_lapse(bands@, x@),
{
    let mut copy: Vec<ElevationBand<F>> = Vec::new();
    let mut i: usize = 0;
    while i < bands.bands.len()
        invariant
            i <= bands.bands@.len(),
            copy@ == bands.bands@.take(i as int),
        decreases bands.bands@.len() - i,
    {
        copy.push(bands.bands[i]);
        assert(copy@ =~= bands.bands@.take(i + 1));
        i = i + 1;
    }
    assert(copy@ =~= bands.bands@);
    ElevationBands {
        bands: copy,
        reference_elevation: bands.reference_elevation,
        tcalt: x[12],
        pcalt: x[13],
    }
}

/// What a semi-distributed calibration maximizes: the fit of the simulation to
/// the observed discharge `qobs` after `warmup` steps.
#[derive(Debug, Clone, Copy)]
pub struct HbvBandsProblem<'a, F> {
    /// Precipitation.
    pub precip: &'a [F],
    /// Potential evapotranspiration.
    pub pet: &'a [F],
    /// Air temperature.
    pub temp: &'a [F],
    /// The band geometry.
    pub bands: &'a ElevationBands<F>,
    /// Observed discharge; gaps are undefined numbers.
    pub qobs: &'a [F],
    /// Steps left out of the comparison.
    pub warmup: usize,
    /// Metric of the fit.
    pub objective: Objective,
}

/// The text of observations or temperatures of the wrong length.
pub open spec fn banded_steps_text(expected: nat, qobs: nat, temp: nat) -> Seq<char> {
    "expected "@ + decimal_text(expected) + " steps, got qobs="@ + decimal_text(qobs) + " temp="@
        + decimal_text(temp)
}

/// Why the series of a semi-distributed calibration are rejected, if they are.
pub open spec fn banded_series_fault(
    precip: nat,
    pet: nat,
    temp: nat,
    qobs: nat,
    warmup: nat,
) -> Option<Fault> {
    if precip != pet {
        Some(mismatch(precip, pet))
    } else if qobs != precip || temp != precip {
        Some(invalid("qobs/temp"@, banded_steps_text(precip, qobs, temp)))
    } else if warmup >= precip {
        Some(invalid("warmup"@, warmup_text(warmup, precip)))
    } else {
        None
    }
}

/// Checks the series of a semi-distributed calibration.
fn check_banded_series(
    precip: usize,
    pet: usize,
    temp: usize,
    qobs: usize,
    warmup: usize,
) -> (r: Result<(), Error>)
    ensures
        match banded_series_fault(
            precip as nat,
            pet as nat,
            temp as nat,
            qobs as nat,
            warmup as nat,
        ) {
            Some(fault) => r is Err && r->Err_0@ == fault,
            None => r is Ok,
        },
{
    if precip != pet {
        return Err(Error::ForcingLengthMismatch { precip, pet });
    }
    if qobs != precip || temp != precip {
        let mut reason = around("expected ", precip, " steps, got qobs=");
        reason.append(decimal(qobs).as_str());
        reason.append(" temp=");
        reason.append(decimal(temp).as_str());
        return Err(reject("qobs/temp", reason.as_str()));
    }
    if warmup >= precip {
        let reason = warmup_reason(warmup, precip);
        return Err(reject("warmup", reason.as_str()));
    }
    Ok(())
}

/// Worth of a candidate: the fit of its parameters and lapse rates.
pub open spec fn hbv_bands_worth<F: Arith>(
    precip: Seq<F>,
    pet: Seq<F>,
    temp: Seq<F>,
    bands: Layout<F>,
    qobs: Seq<F>,
    warmup: nat,
    objective: Objective,
    x: Seq<F>,
) -> F {
    hbv_bands_fit(
        precip,
        pet,
        temp,
        qobs,
        warmup,
        objective,
        hbv_candidate(x, true),
        with_lapse(bands, x),
    )
}

/// Fit of HBV parameters and bands: the objective of their simulation after the
/// warm-up, undefined where the parameters or the bands are unsound or the
/// metric is undefined.
pub open spec fn hbv_bands_fit<F: Arith>(
    precip: Seq<F>,
    pet: Seq<F>,
    temp: Seq<F>,
    qobs: Seq<F>,
    warmup: nat,
    objective: Objective,
    prm: HbvParams<F>,
    cfg: Layout<F>,
) -> F {
    if banded_fault(prm, cfg) is Some {
        F::nothing()
    } else {
        score(
            objective,
            qobs,
            banded_series(prm, cfg, banded_start(prm, cfg), precip, pet, temp),
            warmup,
        )
    }
}

impl<'a, F: Scalar> HbvBandsProblem<'a, F> {
    /// Why the series are rejected, if they are.
    pub open spec fn fault(self) -> Option<Fault> {
        banded_series_fault(
            self.precip@.len(),
            self.pet@.len(),
            self.temp@.len(),
            self.qobs@.len(),
            self.warmup as nat,
        )
    }

    /// Scores the candidate `x`.
    pub fn evaluate(&self, x: &[F]) -> (r: F)
        requires
            self.fault() is None,
            x@.len() >= 14,
        ensures
            r == hbv_bands_worth(
                self.precip@,
                self.pet@,
                self.temp@,
                self.bands@,
                self.qobs@,
                self.warmup as nat,
                self.objective,
                x@,
            ),
    {
        let model = match HbvBands::new(hbv_params_from_vector(x, true), lapsed(self.bands, x)) {
            Ok(model) => model,
            Err(_) => {
                return F::nan();
            },
        };
        match model.run(self.precip, self.pet, self.temp) {
            Ok(qsim) => score_after(self.objective, self.qobs, qsim.as_slice(), self.warmup),
            Err(_) => F::nan(),
        }
    }
}

/// Whether a calibration reports an answer of the engine to the search for the
/// problem within the default bounds.
pub open spec fn hbv_bands_reported<'a, F: Arith, E>(
    engine: E,
    optimizer: Optimizer<F>,
    problem: HbvBandsProblem<'a, F>,
    c: HbvBandsCalibration<F>,
) -> bool where
    E: FnOnce(&[(F, F)], Option<&[F]>, Optimizer<F>, HbvBandsProblem<'a, F>) -> DdsResult<F>,
 {
    exists|out: DdsResult<F>|
        {
            &&& #[trigger] answers(engine, hbv_bands_bounds(), optimizer, problem, out)
            &&& c.params == hbv_candidate(out.params@, true)
            &&& c.bands@ == with_lapse(problem.bands@, out.params@)
            &&& c.value == out.value
            &&& c.evaluations == out.evaluations
        }
}

/// Calibrates the semi-distributed [`HbvBands`] model (temperature required).
/// Searches the full 12-parameter HBV set plus the two lapse rates TCALT and
/// PCALT (14 dimensions); the band geometry (elevations and area fractions)
/// stays fixed at `bands`, only its lapse rates are overwritten.
pub fn calibrate_hbv_bands<'a, F: Scalar, E>(
    precip: &'a [F],
    pet: &'a [F],
    temp: &'a [F],
    bands: &'a ElevationBands<F>,
    qobs: &'a [F],
    warmup: usize,
    objective: Objective,
    optimizer: &Optimizer<F>,
    engine: E,
) -> (r: Result<HbvBandsCalibration<F>, Error>) where
    E: FnOnce(&[(F, F)], Option<&[F]>, Optimizer<F>, HbvBandsProblem<'a, F>) -> DdsResult<F>,

    requires
        banded_series_fault(
            precip@.len(),
            pet@.len(),
            temp@.len(),
            qobs@.len(),
            warmup as nat,
        ) is None && bounds_fault(hbv_bands_bounds::<F>()) is None ==> population_fits(
            *optimizer,
            14,
        ),
        ({
            let problem = HbvBandsProblem { precip, pet, temp, bands, qobs, warmup, objective };
            first_of(problem.fault(), search_fault(*optimizer, hbv_bands_bounds())) is None
                ==> takes_on(engine, hbv_bands_bounds(), *optimizer, problem)
        }),
    ensures
        ({
            let problem = HbvBandsProblem { precip, pet, temp, bands, qobs, warmup, objective };
            match first_of(problem.fault(), search_fault(*optimizer, hbv_bands_bounds())) {
                Some(fault) => r is Err && r->Err_0@ == fault,
                None => r is Ok && hbv_bands_reported(engine, *optimizer, problem, r->Ok_0),
            }
        }),
{
    if let Err(e) = check_banded_series(
        precip.len(),
        pet.len(),
        temp.len(),
        qobs.len(),
        warmup,
    ) {
        return Err(e);
    }
    let bounds = banded_search_bounds::<F>();
    let problem = HbvBandsProblem { precip, pet, temp, bands, qobs, warmup, objective };
    if let Err(e) = optimizer.check(bounds.as_slice()) {
        return Err(e);
    }
    let out = engine(bounds.as_slice(), None, *optimizer, problem);
    assert(answers(engine, bounds@, *optimizer, problem, out));
    Ok(
        HbvBandsCalibration {
            params: hbv_params_from_vector(out.params.as_slice(), true),
            bands: lapsed(bands, out.params.as_slice()),
            value: out.value,
            evaluations: out.evaluations,
        },
    )
}

} // verus!
