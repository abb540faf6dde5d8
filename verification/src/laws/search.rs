//! Laws of searches and of what calibrations report, for every number type.
use vstd::prelude::*;
use crate::calibrate::{
    DdsConfig, DdsResult, Gr4jCalibration, Gr4jProblem, HbvBandsCalibration, HbvBandsProblem,
    HbvCalibration, HbvProblem, Objective, Optimizer, SceConfig, Target,
};
use crate::error::Error;

verus! {

use crate::bands::{banded_fault, banded_series, banded_start, Layout};
use crate::calibrate::{
    after_warmup, answers, dds_fault, gr4j_calibration_fault, gr4j_candidate, gr4j_fit,
    gr4j_reported, gr4j_worth, hbv_bands_bounds, hbv_bands_fit, hbv_bands_reported,
    hbv_bands_worth, hbv_bounds, hbv_candidate, hbv_fit, hbv_reported, hbv_worth,
    objective_value, sce_fault, search_fault, search_outcome, with_lapse,
};
use crate::error::Fault;
use crate::gr4j::{gr4j_fault, gr4j_series, gr4j_start};
use crate::hbv::{hbv_fault, hbv_series, hbv_start, temp_series};
use crate::number::Arith;

/// Whether two results of a search are the same.
pub open spec fn same_result<F>(a: DdsResult<F>, b: DdsResult<F>) -> bool {
    a.params@ == b.params@ && a.value == b.value && a.evaluations == b.evaluations
}

/// Whether two searches came to the same end.
pub open spec fn same_end<F>(
    a: Result<DdsResult<F>, Error>,
    b: Result<DdsResult<F>, Error>,
) -> bool {
    match (a, b) {
        (Ok(a), Ok(b)) => same_result(a, b),
        (Err(a), Err(b)) => a@ == b@,
        _ => false,
    }
}

/// Whether an engine answers a search in one way only.
pub open spec fn decided<F, O, E>(
    engine: E,
    bounds: &[(F, F)],
    init: Option<&[F]>,
    optimizer: Optimizer<F>,
    objective: O,
) -> bool where E: FnOnce(&[(F, F)], Option<&[F]>, Optimizer<F>, O) -> DdsResult<F> {
    forall|a: DdsResult<F>, b: DdsResult<F>|
        #[trigger] call_ensures(engine, (bounds, init, optimizer, objective), a)
            && #[trigger] call_ensures(engine, (bounds, init, optimizer, objective), b)
            ==> same_result(a, b)
}

/// Equal searches come to the same end with an engine that answers in one way
/// only, as one with a seed of its own does.
pub proof fn equal_searches_agree<F, O, E>(
    fault: Option<Fault>,
    engine: E,
    bounds: &[(F, F)],
    init: Option<&[F]>,
    optimizer: Optimizer<F>,
    objective: O,
    a: Result<DdsResult<F>, Error>,
    b: Result<DdsResult<F>, Error>,
) where E: FnOnce(&[(F, F)], Option<&[F]>, Optimizer<F>, O) -> DdsResult<F>
    requires
        decided(engine, bounds, init, optimizer, objective),
        search_outcome(fault, engine, bounds, init, optimizer, objective, a),
        search_outcome(fault, engine, bounds, init, optimizer, objective, b),
    ensures
        same_end(a, b),
{
}

/// A search with the chosen optimizer is the DDS search without a starting
/// solution, or the SCE-UA search, with its settings.
pub proof fn optimizer_runs_its_algorithm<F: Arith, O, E>(
    engine: E,
    bounds: &[(F, F)],
    dds: DdsConfig<F>,
    sce: SceConfig,
    objective: O,
    r: Result<DdsResult<F>, Error>,
) where E: FnOnce(&[(F, F)], Option<&[F]>, Optimizer<F>, Target<O>) -> DdsResult<F>
    ensures
        search_outcome(
            search_fault(Optimizer::Dds(dds), bounds@),
            engine,
            bounds,
            None,
            Optimizer::Dds(dds),
            (Target { objective }),
            r,
        ) <==> search_outcome(
            dds_fault(bounds@, None, dds),
            engine,
            bounds,
            None,
            Optimizer::Dds(dds),
            (Target { objective }),
            r,
        ),
        search_outcome(
            search_fault(Optimizer::<F>::Sce(sce), bounds@),
            engine,
            bounds,
            None,
            Optimizer::Sce(sce),
            (Target { objective }),
            r,
        ) <==> search_outcome(
            sce_fault(bounds@, sce),
            engine,
            bounds,
            None,
            Optimizer::Sce(sce),
            (Target { objective }),
            r,
        ),
{
}

/// Whether a candidate has a value for each of the bounds, and lies within them.
pub open spec fn within_bounds<F: Arith>(x: Seq<F>, bounds: Seq<(F, F)>) -> bool {
    &&& x.len() == bounds.len()
    &&& forall|i: int|
        0 <= i < bounds.len() ==> (#[trigger] bounds[i]).0.within(x[i]) && x[i].within(bounds[i].1)
}

/// Whether an engine only answers with candidates within the bounds and with
/// what they are worth.
pub open spec fn honest<F: Arith, O, E>(
    engine: E,
    bounds: Seq<(F, F)>,
    optimizer: Optimizer<F>,
    problem: O,
    worth: spec_fn(Seq<F>) -> F,
) -> bool where E: FnOnce(&[(F, F)], Option<&[F]>, Optimizer<F>, O) -> DdsResult<F> {
    forall|out: DdsResult<F>| #[trigger]
        answers(engine, bounds, optimizer, problem, out) ==> within_bounds(out.params@, bounds)
            && out.value == worth(out.params@)
}

/// What each candidate of a GR4J problem is worth.
pub open spec fn gr4j_worths<F: Arith>(problem: Gr4jProblem<F>) -> spec_fn(Seq<F>) -> F {
    |x: Seq<F>|
        gr4j_worth(
            problem.precip@,
            problem.pet@,
            problem.qobs@,
            problem.warmup as nat,
            problem.objective,
            x,
        )
}

/// With an honest engine a GR4J calibration reports parameters within the
/// bounds. Its value is their fit: where it is finite, the parameters are
/// accepted, and the value is the objective of their simulation after the
/// warm-up.
pub proof fn gr4j_calibration_reports_its_fit<'a, F: Arith, E>(
    engine: E,
    bounds: Seq<(F, F)>,
    optimizer: Optimizer<F>,
    problem: Gr4jProblem<'a, F>,
    c: Gr4jCalibration<F>,
) where E: FnOnce(&[(F, F)], Option<&[F]>, Optimizer<F>, Gr4jProblem<'a, F>) -> DdsResult<F>
    requires
        bounds.len() == 4,
        gr4j_reported(engine, bounds, optimizer, problem, c),
        honest(engine, bounds, optimizer, problem, gr4j_worths(problem)),
        !F::nothing().finite(),
    ensures
        within_bounds(seq![c.params.x1, c.params.x2, c.params.x3, c.params.x4], bounds),
        c.value == gr4j_fit(
            problem.precip@,
            problem.pet@,
            problem.qobs@,
            problem.warmup as nat,
            problem.objective,
            c.params,
        ),
        c.value.finite() ==> {
            &&& gr4j_fault(c.params) is None
            &&& objective_value(
                problem.objective,
                after_warmup(problem.qobs@, problem.warmup as nat),
                after_warmup(
                    gr4j_series(
                        c.params,
                        gr4j_start(c.params),
                        problem.precip@,
                        problem.pet@,
                    ),
                    problem.warmup as nat,
                ),
            ) == Some(c.value)
        },
{
    let out = choose|out: DdsResult<F>|
        {
            &&& #[trigger] answers(engine, bounds, optimizer, problem, out)
            &&& c.params == gr4j_candidate(out.params@)
            &&& c.value == out.value
            &&& c.evaluations == out.evaluations
        };
    let x = seq![c.params.x1, c.params.x2, c.params.x3, c.params.x4];
    assert(x =~= out.params@);
}

/// What each candidate of an HBV problem is worth.
pub open spec fn hbv_worths<F: Arith>(problem: HbvProblem<F>) -> spec_fn(Seq<F>) -> F {
    |x: Seq<F>|
        hbv_worth(
            problem.precip@,
            problem.pet@,
            temp_series(problem.temp),
            problem.qobs@,
            problem.warmup as nat,
            problem.objective,
            x,
        )
}

/// With an honest engine an HBV calibration reports the parameters of a
/// candidate within the bounds. Its value is their fit: where it is finite, the
/// parameters are accepted, and the value is the objective of their simulation
/// after the warm-up.
pub proof fn hbv_calibration_reports_its_fit<'a, F: Arith, E>(
    engine: E,
    optimizer: Optimizer<F>,
    problem: HbvProblem<'a, F>,
    c: HbvCalibration<F>,
) where E: FnOnce(&[(F, F)], Option<&[F]>, Optimizer<F>, HbvProblem<'a, F>) -> DdsResult<F>
    requires
        hbv_reported(engine, optimizer, problem, c),
        honest(
            engine,
            hbv_bounds(problem.temp is Some),
            optimizer,
            problem,
            hbv_worths(problem),
        ),
        !F::nothing().finite(),
    ensures
        exists|x: Seq<F>| #[trigger]
            within_bounds(x, hbv_bounds(problem.temp is Some)) && c.params == hbv_candidate(
                x,
                problem.temp is Some,
            ),
        c.value == hbv_fit(
            problem.precip@,
            problem.pet@,
            temp_series(problem.temp),
            problem.qobs@,
            problem.warmup as nat,
            problem.objective,
            c.params,
        ),
        c.value.finite() ==> {
            &&& hbv_fault(c.params) is None
            &&& objective_value(
                problem.objective,
                after_warmup(problem.qobs@, problem.warmup as nat),
                after_warmup(
                    hbv_series(
                        c.params,
                        hbv_start(c.params),
                        problem.precip@,
                        problem.pet@,
                        temp_series(problem.temp),
                    ),
                    problem.warmup as nat,
                ),
            ) == Some(c.value)
        },
{
    let with_snow = problem.temp is Some;
    let out = choose|out: DdsResult<F>|
        {
            &&& #[trigger] answers(engine, hbv_bounds(with_snow), optimizer, problem, out)
            &&& c.params == hbv_candidate(out.params@, with_snow)
            &&& c.value == out.value
            &&& c.evaluations == out.evaluations
        };
    assert(within_bounds(out.params@, hbv_bounds(with_snow)));
}

/// What each candidate of a semi-distributed problem is worth.
pub open spec fn hbv_bands_worths<F: Arith>(problem: HbvBandsProblem<F>) -> spec_fn(
    Seq<F>,
) -> F {
    |x: Seq<F>|
        hbv_bands_worth(
            problem.precip@,
            problem.pet@,
            problem.temp@,
            problem.bands@,
            problem.qobs@,
            problem.warmup as nat,
            problem.objective,
            x,
        )
}

/// With an honest engine a semi-distributed calibration reports the parameters
/// and lapse rates of a candidate within the bounds. Its value is their fit:
/// where it is finite, they are accepted, and the value is the objective of
/// their simulation after the warm-up.
pub proof fn hbv_bands_calibration_reports_its_fit<'a, F: Arith, E>(
    engine: E,
    optimizer: Optimizer<F>,
    problem: HbvBandsProblem<'a, F>,
    c: HbvBandsCalibration<F>,
) where E: FnOnce(&[(F, F)], Option<&[F]>, Optimizer<F>, HbvBandsProblem<'a, F>) -> DdsResult<F>
    requires
        hbv_bands_reported(engine, optimizer, problem, c),
        honest(engine, hbv_bands_bounds(), optimizer, problem, hbv_bands_worths(problem)),
        !F::nothing().finite(),
    ensures
        exists|x: Seq<F>| #[trigger]
            within_bounds(x, hbv_bands_bounds()) && c.params == hbv_candidate(x, true) && c.bands@
                == with_lapse(problem.bands@, x),
        c.value == hbv_bands_fit(
            problem.precip@,
            problem.pet@,
            problem.temp@,
            problem.qobs@,
            problem.warmup as nat,
            problem.objective,
            c.params,
            c.bands@,
        ),
        c.value.finite() ==> {
            &&& banded_fault(c.params, c.bands@) is None
            &&& objective_value(
                problem.objective,
                after_warmup(problem.qobs@, problem.warmup as nat),
                after_warmup(
                    banded_series(
                        c.params,
                        c.bands@,
                        banded_start(c.params, c.bands@),
                        problem.precip@,
                        problem.pet@,
                        problem.temp@,
                    ),
                    problem.warmup as nat,
                ),
            ) == Some(c.value)
        },
{
    let out = choose|out: DdsResult<F>|
        {
            &&& #[trigger] answers(engine, hbv_bands_bounds(), optimizer, problem, out)
            &&& c.params == hbv_candidate(out.params@, true)
            &&& c.bands@ == with_lapse(problem.bands@, out.params@)
            &&& c.value == out.value
            &&& c.evaluations == out.evaluations
        };
    assert(within_bounds(out.params@, hbv_bands_bounds()));
}

/// Observations inside the warm-up do not change what a candidate is worth.
pub proof fn warmup_observations_do_not_count<F: Arith>(
    precip: Seq<F>,
    pet: Seq<F>,
    temp: Option<Seq<F>>,
    qobs: Seq<F>,
    other: Seq<F>,
    warmup: nat,
    objective: Objective,
    x: Seq<F>,
)
    requires
        after_warmup(qobs, warmup) == after_warmup(other, warmup),
    ensures
        gr4j_worth(precip, pet, qobs, warmup, objective, x) == gr4j_worth(
            precip,
            pet,
            other,
            warmup,
            objective,
            x,
        ),
        hbv_worth(precip, pet, temp, qobs, warmup, objective, x) == hbv_worth(
            precip,
            pet,
            temp,
            other,
            warmup,
            objective,
            x,
        ),
{
}

/// Observations inside the warm-up do not change what a candidate of the
/// semi-distributed model is worth.
pub proof fn warmup_observations_do_not_count_over_bands<F: Arith>(
    precip: Seq<F>,
    pet: Seq<F>,
    temp: Seq<F>,
    bands: Layout<F>,
    qobs: Seq<F>,
    other: Seq<F>,
    warmup: nat,
    objective: Objective,
    x: Seq<F>,
)
    requires
        after_warmup(qobs, warmup) == after_warmup(other, warmup),
    ensures
        hbv_bands_worth(precip, pet, temp, bands, qobs, warmup, objective, x) == hbv_bands_worth(
            precip,
            pet,
            temp,
            bands,
            other,
            warmup,
            objective,
            x,
        ),
{
}

/// Whether an engine answers two problems alike where every candidate is worth
/// the same in both.
pub open spec fn led_by_worth<F: Arith, O, E>(
    engine: E,
    bounds: Seq<(F, F)>,
    optimizer: Optimizer<F>,
    a: O,
    b: O,
    worth_a: spec_fn(Seq<F>) -> F,
    worth_b: spec_fn(Seq<F>) -> F,
) -> bool where E: FnOnce(&[(F, F)], Option<&[F]>, Optimizer<F>, O) -> DdsResult<F> {
    (forall|x: Seq<F>| #[trigger] worth_a(x) == worth_b(x)) ==> forall|
        out_a: DdsResult<F>,
        out_b: DdsResult<F>,
    |
        #[trigger] answers(engine, bounds, optimizer, a, out_a) && #[trigger] answers(
            engine,
            bounds,
            optimizer,
            b,
            out_b,
        ) ==> same_result(out_a, out_b)
}

/// Observations inside the warm-up do not change a GR4J calibration: with an
/// engine that goes by what candidates are worth, it is rejected for the same
/// fault or reports the same.
pub proof fn warmup_observations_do_not_change_a_calibration<'a, F: Arith, E>(
    engine: E,
    bounds: Seq<(F, F)>,
    optimizer: Optimizer<F>,
    a: Gr4jProblem<'a, F>,
    b: Gr4jProblem<'a, F>,
    c: Gr4jCalibration<F>,
    d: Gr4jCalibration<F>,
) where E: FnOnce(&[(F, F)], Option<&[F]>, Optimizer<F>, Gr4jProblem<'a, F>) -> DdsResult<F>
    requires
        b == (Gr4jProblem { qobs: b.qobs, ..a }),
        a.qobs@.len() == b.qobs@.len(),
        after_warmup(a.qobs@, a.warmup as nat) == after_warmup(b.qobs@, a.warmup as nat),
        led_by_worth(engine, bounds, optimizer, a, b, gr4j_worths(a), gr4j_worths(b)),
    ensures
        gr4j_calibration_fault(a, bounds, optimizer) == gr4j_calibration_fault(
            b,
            bounds,
            optimizer,
        ),
        gr4j_reported(engine, bounds, optimizer, a, c) && gr4j_reported(
            engine,
            bounds,
            optimizer,
            b,
            d,
        ) ==> c == d,
{
    let (worth_a, worth_b) = (gr4j_worths(a), gr4j_worths(b));
    assert forall|x: Seq<F>| #[trigger] worth_a(x) == worth_b(x) by {
        warmup_observations_do_not_count(
            a.precip@,
            a.pet@,
            None,
            a.qobs@,
            b.qobs@,
            a.warmup as nat,
            a.objective,
            x,
        );
    }
}

/// The default HBV bounds are nine, or twelve with the three of the snow routine
/// in front.
pub proof fn hbv_bounds_with_snow_extend_those_without<F: Arith>()
    ensures
        hbv_bounds::<F>(false).len() == 9,
        hbv_bounds::<F>(true).len() == 12,
        hbv_bounds::<F>(true).skip(3) == hbv_bounds::<F>(false),
{
    assert(hbv_bounds::<F>(true).skip(3) =~= hbv_bounds::<F>(false));
}

} // verus!
