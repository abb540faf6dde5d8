//! What a user asks for: settings by name, a simulation over a forcing table,
//! a calibration against observed discharge.
use vstd::prelude::*;
use vstd::slice::slice_subrange;
use vstd::string::*;
use crate::calibrate::{
    calibrate_gr4j, gr4j_default_bounds, DdsConfig, DdsResult, Gr4jCalibration, Gr4jProblem,
    Objective, Optimizer, SceConfig,
};
use crate::error::Error;
use crate::forcing::Forcing;
use crate::gr4j::{Gr4j, Gr4jParams};
use crate::metrics::{kge, kge_components, log_nse, nse, pbias, KgeComponents, MetricsError};
use crate::number::Scalar;
use crate::text::{around, decimal, lowercase, same_text};

verus! {

use crate::calibrate::{
    answers, gr4j_bounds, gr4j_calibration_fault, gr4j_candidate, takes_on,
};
use crate::error::{fault_text, Fault};
use crate::gr4j::{gr4j_fault, gr4j_series, gr4j_start};
use crate::metrics::{
    kge_components_result, kge_result, log_nse_result, nse_result, pbias_result,
};
use crate::number::Arith;
use crate::text::{all_ascii, codes, decimal_text, folded, lemma_codes, lowercase_text};

/// A name that stands for nothing.
#[derive(Debug)]
pub enum SettingError {
    /// No objective has this name; it is given in lowercase.
    UnknownObjective(String),
    /// No algorithm has this name; it is given in lowercase.
    UnknownAlgorithm(String),
}

/// The objective of a lowercase name.
pub open spec fn objective_of(key: Seq<char>) -> Option<Objective> {
    if key == "nse"@ {
        Some(Objective::Nse)
    } else if key == "kge"@ {
        Some(Objective::Kge)
    } else if key == "lognse"@ || key == "log_nse"@ {
        Some(Objective::LogNse)
    } else {
        None
    }
}

/// The optimizer of a lowercase name.
pub open spec fn optimizer_of<F: Arith>(
    key: Seq<char>,
    iterations: usize,
    seed: u64,
    complexes: usize,
) -> Option<Optimizer<F>> {
    if key == "dds"@ {
        Some(Optimizer::Dds(DdsConfig { max_iter: iterations, r: F::literal(1, 5), seed }))
    } else if key == "sce"@ {
        Some(Optimizer::Sce(SceConfig { complexes, max_iter: iterations, seed }))
    } else {
        None
    }
}

/// The objective of a lowercase name.
pub fn objective_named(key: &str) -> (r: Option<Objective>)
    ensures
        r == objective_of(key@),
{
    if same_text(key, "nse") {
        Some(Objective::Nse)
    } else if same_text(key, "kge") {
        Some(Objective::Kge)
    } else if same_text(key, "lognse") || same_text(key, "log_nse") {
        Some(Objective::LogNse)
    } else {
        None
    }
}

/// The optimizer of a lowercase name. The number of complexes only matters to
/// SCE-UA, and the perturbation of DDS keeps its default.
pub fn optimizer_named<F: Scalar>(
    key: &str,
    iterations: usize,
    seed: u64,
    complexes: usize,
) -> (r: Option<Optimizer<F>>)
    ensures
        r == optimizer_of::<F>(key@, iterations, seed, complexes),
{
    if same_text(key, "dds") {
        let mut config = DdsConfig::default();
        config.max_iter = iterations;
        config.seed = seed;
        Some(Optimizer::Dds(config))
    } else if same_text(key, "sce") {
        Some(Optimizer::Sce(SceConfig { complexes, max_iter: iterations, seed }))
    } else {
        None
    }
}

/// The objective of a name, whatever its case: a name in ASCII letters stands
/// for the objective whose lowercase name it is but for the case.
pub fn parse_objective(name: &str) -> (r: Result<Objective, SettingError>)
    ensures
        match objective_of(lowercase_text(name@)) {
            Some(objective) => r is Ok && r->Ok_0 == objective,
            None => {
                &&& r is Err
                &&& r->Err_0 is UnknownObjective
                &&& r->Err_0->UnknownObjective_0@ == lowercase_text(name@)
            },
        },
        forall|word: Seq<char>|
            all_ascii(name@) && #[trigger] codes(word) == folded(name@) && objective_of(
                word,
            ) is Some ==> r is Ok && r->Ok_0 == objective_of(word)->0,
{
    let key = lowercase(name);
    proof {
        assert forall|word: Seq<char>|
            all_ascii(name@) && #[trigger] codes(word) == folded(name@) implies word == key@ by {
            lemma_codes(word, key@);
        }
    }
    match objective_named(key.as_str()) {
        Some(objective) => Ok(objective),
        None => Err(SettingError::UnknownObjective(key)),
    }
}

/// The optimizer of a name, whatever its case: a name in ASCII letters stands
/// for the optimizer whose lowercase name it is but for the case.
pub fn build_optimizer<F: Scalar>(
    algorithm: &str,
    iterations: usize,
    seed: u64,
    complexes: usize,
) -> (r: Result<Optimizer<F>, SettingError>)
    ensures
        match optimizer_of::<F>(lowercase_text(algorithm@), iterations, seed, complexes) {
            Some(optimizer) => r is Ok && r->Ok_0 == optimizer,
            None => {
                &&& r is Err
                &&& r->Err_0 is UnknownAlgorithm
                &&& r->Err_0->UnknownAlgorithm_0@ == lowercase_text(algorithm@)
            },
        },
        forall|word: Seq<char>|
            all_ascii(algorithm@) && #[trigger] codes(word) == folded(algorithm@) && optimizer_of::<
                F,
            >(word, iterations, seed, complexes) is Some ==> r is Ok && r->Ok_0 == optimizer_of::<
                F,
            >(word, iterations, seed, complexes)->0,
{
    let key = lowercase(algorithm);
    proof {
        assert forall|word: Seq<char>|
            all_ascii(algorithm@) && #[trigger] codes(word) == folded(
                algorithm@,
            ) implies word == key@ by {
            lemma_codes(word, key@);
        }
    }
    match optimizer_named(key.as_str(), iterations, seed, complexes) {
        Some(optimizer) => Ok(optimizer),
        None => Err(SettingError::UnknownAlgorithm(key)),
    }
}

/// The metric suite of a simulation.
#[derive(Debug)]
pub struct Assessment<F> {
    /// Nash-Sutcliffe efficiency.
    pub nse: Result<F, MetricsError>,
    /// Kling-Gupta efficiency.
    pub kge: Result<F, MetricsError>,
    /// Nash-Sutcliffe efficiency of the logarithms.
    pub log_nse: Result<F, MetricsError>,
    /// Percent bias.
    pub pbias: Result<F, MetricsError>,
    /// Components of the Kling-Gupta efficiency.
    pub components: Result<KgeComponents<F>, MetricsError>,
}

/// The metric suite of `sim` against `obs`, both without their first `warmup`
/// steps.
pub open spec fn assessment<F: Arith>(obs: Seq<F>, sim: Seq<F>, warmup: nat) -> Assessment<F> {
    let o = obs.subrange(warmup as int, obs.len() as int);
    let s = sim.subrange(warmup as int, sim.len() as int);
    Assessment {
        nse: nse_result(o, s),
        kge: kge_result(o, s),
        log_nse: log_nse_result(o, s),
        pbias: pbias_result(o, s),
        components: kge_components_result(o, s),
    }
}

/// Computes the metric suite of `sim` against `obs`, both without their first
/// `warmup` steps.
pub fn assess<F: Scalar>(obs: &[F], sim: &[F], warmup: usize) -> (r: Assessment<F>)
    requires
        warmup <= obs@.len(),
        warmup <= sim@.len(),
    ensures
        r == assessment(obs@, sim@, warmup as nat),
{
    let o = slice_subrange(obs, warmup, obs.len());
    let s = slice_subrange(sim, warmup, sim.len());
    Assessment {
        nse: nse(o, s),
        kge: kge(o, s),
        log_nse: log_nse(o, s),
        pbias: pbias(o, s),
        components: kge_components(o, s),
    }
}

/// Why a session ends without a result.
#[derive(Debug)]
pub enum SessionError {
    /// The warm-up leaves nothing to compare.
    Warmup {
        /// Steps of the warm-up.
        warmup: usize,
        /// Steps of the series.
        steps: usize,
    },
    /// There is no observed discharge to calibrate against.
    NoObserved,
    /// The model or its calibration was rejected.
    Model(Error),
}

/// What is wrong with a session.
pub enum SessionFault {
    /// The warm-up leaves nothing to compare.
    Warmup {
        /// Steps of the warm-up.
        warmup: nat,
        /// Steps of the series.
        steps: nat,
    },
    /// There is no observed discharge.
    NoObserved,
    /// The model or its calibration was rejected.
    Model(Fault),
}

impl View for SessionError {
    type V = SessionFault;

    open spec fn view(&self) -> SessionFault {
        match *self {
            SessionError::Warmup { warmup, steps } => {
                SessionFault::Warmup { warmup: warmup as nat, steps: steps as nat }
            },
            SessionError::NoObserved => SessionFault::NoObserved,
            SessionError::Model(e) => SessionFault::Model(e@),
        }
    }
}

/// The text of a session fault.
pub open spec fn session_text(f: SessionFault) -> Seq<char> {
    match f {
        SessionFault::Warmup { warmup, steps } => {
            "warm-up ("@ + decimal_text(warmup) + ") must be shorter than the series ("@
                + decimal_text(steps) + " steps)"@
        },
        SessionFault::NoObserved => {
            "calibration requires an observed discharge column (qobs)"@
        },
        SessionFault::Model(f) => fault_text(f),
    }
}

impl SessionError {
    /// The message of this error.
    pub fn message(&self) -> (r: String)
        ensures
            r@ == session_text(self@),
    {
        match self {
            SessionError::Warmup { warmup, steps } => {
                let mut r = around("warm-up (", *warmup, ") must be shorter than the series (");
                r.append(decimal(*steps).as_str());
                r.append(" steps)");
                r
            },
            SessionError::NoObserved => {
                "calibration requires an observed discharge column (qobs)".to_owned()
            },
            SessionError::Model(e) => e.message(),
        }
    }
}

/// Result of a simulation over a forcing table.
#[derive(Debug)]
pub struct RunReport<F> {
    /// Simulated discharge.
    pub qsim: Vec<F>,
    /// The metric suite, where there is observed discharge.
    pub assessment: Option<Assessment<F>>,
}

/// Why a simulation is rejected, if it is.
pub open spec fn run_fault<F: Arith>(prm: Gr4jParams<F>, steps: nat, warmup: nat) -> Option<
    SessionFault,
> {
    if warmup >= steps {
        Some(SessionFault::Warmup { warmup, steps })
    } else {
        match gr4j_fault(prm) {
            Some(fault) => Some(SessionFault::Model(fault)),
            None => None,
        }
    }
}

/// Runs GR4J over a forcing table and assesses the simulation after `warmup`
/// steps.
pub fn run<F: Scalar>(params: Gr4jParams<F>, forcing: &Forcing<F>, warmup: usize) -> (r: Result<
    RunReport<F>,
    SessionError,
>)
    requires
        forcing@.wf(),
    ensures
        match run_fault(params, forcing@.precip.len(), warmup as nat) {
            Some(fault) => r is Err && r->Err_0@ == fault,
            None => {
                let qsim = gr4j_series(params, gr4j_start(params), forcing@.precip, forcing@.pet);
                &&& r is Ok
                &&& r->Ok_0.qsim@ == qsim
                &&& r->Ok_0.assessment == match forcing@.qobs {
                    Some(qobs) => Some(assessment(qobs, qsim, warmup as nat)),
                    None => None,
                }
            },
        },
{
    let n: usize = forcing.precip.len();
    if warmup >= n {
        return Err(SessionError::Warmup { warmup, steps: n });
    }
    let model = match Gr4j::new(params) {
        Ok(model) => model,
        Err(e) => {
            return Err(SessionError::Model(e));
        },
    };
    let qsim = match model.run(forcing.precip.as_slice(), forcing.pet.as_slice()) {
        Ok(qsim) => qsim,
        Err(e) => {
            return Err(SessionError::Model(e));
        },
    };
    let assessment = match &forcing.qobs {
        Some(qobs) => Some(assess(qobs.as_slice(), qsim.as_slice(), warmup)),
        None => None,
    };
    Ok(RunReport { qsim, assessment })
}

/// Result of a calibration against a forcing table.
#[derive(Debug)]
pub struct CalibrationReport<F> {
    /// The calibrated parameters.
    pub calibration: Gr4jCalibration<F>,
    /// The metric suite at the optimum.
    pub assessment: Assessment<F>,
}

/// The DDS settings of a session: the default perturbation.
pub open spec fn session_optimizer<F: Arith>(iterations: usize, seed: u64) -> Optimizer<F> {
    Optimizer::Dds(DdsConfig { max_iter: iterations, r: F::literal(1, 5), seed })
}

/// What a session calibrates.
pub open spec fn session_problem<F>(
    forcing: &Forcing<F>,
    objective: Objective,
    warmup: usize,
    problem: Gr4jProblem<F>,
) -> bool {
    &&& problem.precip@ == forcing@.precip
    &&& problem.pet@ == forcing@.pet
    &&& Some(problem.qobs@) == forcing@.qobs
    &&& problem.warmup == warmup
    &&& problem.objective == objective
}

/// Calibrates GR4J with DDS against the observed discharge of a forcing table
/// within the default bounds, then assesses the optimum after `warmup` steps.
pub fn calibrate<'a, F: Scalar, E>(
    forcing: &'a Forcing<F>,
    objective: Objective,
    iterations: usize,
    seed: u64,
    warmup: usize,
    engine: E,
) -> (r: Result<CalibrationReport<F>, SessionError>) where
    E: FnOnce(&[(F, F)], Option<&[F]>, Optimizer<F>, Gr4jProblem<'a, F>) -> DdsResult<F>,

    requires
        forcing@.wf(),
        forall|problem: Gr4jProblem<'a, F>| #[trigger]
            session_problem(forcing, objective, warmup, problem) ==> {
                let optimizer = session_optimizer(iterations, seed);
                gr4j_calibration_fault(problem, gr4j_bounds(), optimizer) is None ==> takes_on(
                    engine,
                    gr4j_bounds(),
                    optimizer,
                    problem,
                )
            },
    ensures
        forcing@.qobs is None ==> r is Err && r->Err_0@ == SessionFault::NoObserved,
        forcing@.qobs is Some ==> exists|problem: Gr4jProblem<'a, F>|
            {
                &&& #[trigger] session_problem(forcing, objective, warmup, problem)
                &&& match gr4j_calibration_fault(
                    problem,
                    gr4j_bounds(),
                    session_optimizer(iterations, seed),
                ) {
                    Some(fault) => r is Err && r->Err_0@ == SessionFault::Model(fault),
                    None => exists|out: DdsResult<F>|
                        {
                            &&& #[trigger] answers(
                                engine,
                                gr4j_bounds(),
                                session_optimizer(iterations, seed),
                                problem,
                                out,
                            )
                            &&& match gr4j_fault(gr4j_candidate(out.params@)) {
                                Some(fault) => {
                                    r is Err && r->Err_0@ == SessionFault::Model(fault)
                                },
                                None => {
                                    let prm = gr4j_candidate(out.params@);
                                    &&& r is Ok
                                    &&& r->Ok_0.calibration.params == prm
                                    &&& r->Ok_0.calibration.value == out.value
                                    &&& r->Ok_0.calibration.evaluations == out.evaluations
                                    &&& r->Ok_0.assessment == assessment(
                                        forcing@.qobs->0,
                                        gr4j_series(
                                            prm,
                                            gr4j_start(prm),
                                            forcing@.precip,
                                            forcing@.pet,
                                        ),
                                        warmup as nat,
                                    )
                                },
                            }
                        },
                }
            },
{
    let qobs = match &forcing.qobs {
        Some(qobs) => qobs.as_slice(),
        None => {
            return Err(SessionError::NoObserved);
        },
    };
    let precip = forcing.precip.as_slice();
    let pet = forcing.pet.as_slice();
    let mut config = DdsConfig::default();
    config.max_iter = iterations;
    config.seed = seed;
    let optimizer = Optimizer::Dds(config);
    let bounds = gr4j_default_bounds();
    let ghost problem = Gr4jProblem { precip, pet, qobs, warmup, objective };
    assert(session_problem(forcing, objective, warmup, problem));
    let calibration = match calibrate_gr4j(
        precip,
        pet,
        qobs,
        warmup,
        objective,
        &bounds,
        &optimizer,
        engine,
    ) {
        Ok(calibration) => calibration,
        Err(e) => {
            return Err(SessionError::Model(e));
        },
    };
    let model = match Gr4j::new(calibration.params) {
        Ok(model) => model,
        Err(e) => {
            return Err(SessionError::Model(e));
        },
    };
    let qsim = match model.run(precip, pet) {
        Ok(qsim) => qsim,
        Err(e) => {
            return Err(SessionError::Model(e));
        },
    };
    let assessment = assess(qobs, qsim.as_slice(), warmup);
    Ok(CalibrationReport { calibration, assessment })
}

} // verus!
