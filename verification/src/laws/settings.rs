//! Which settings are accepted and what vectors, warm-ups and names stand for.
use vstd::prelude::*;
use crate::calibrate::{DdsConfig, Objective, Optimizer, SceConfig};

verus! {

use crate::bands::Layout;
use crate::calibrate::{
    after_warmup, banded_series_fault, bounds_fault, dds_fault, first_closed, gr4j_candidate,
    hbv_candidate, objective_value, sce_fault, score, series_fault, with_lapse,
};
use crate::exact::{Elementary, Real};
use crate::gr4j::gr4j_forcing_fault;
use crate::hbv::hbv_forcing_fault;
use crate::laws::algebra::lemma_quotient;
use crate::metrics::{
    kge_components_result, kge_result, log_nse_result, nse_result, pbias_result,
};
use crate::number::Arith;
use crate::routing::reach_fault;
use crate::session::{assessment, objective_of, optimizer_of, run_fault};

/// Every dimension before the first closed one is open.
proof fn lemma_open_before<T: Elementary>(bounds: Seq<(Real<T>, Real<T>)>, i: nat, j: nat)
    requires
        i <= j < bounds.len(),
        j < first_closed(bounds, i),
    ensures
        bounds[j as int].0.v < bounds[j as int].1.v,
    decreases bounds.len() - i,
{
    if i < j {
        lemma_open_before(bounds, i + 1, j);
    }
}

/// The search for a closed dimension ends at one or at the end.
proof fn lemma_first_closed<T: Elementary>(bounds: Seq<(Real<T>, Real<T>)>, i: nat)
    requires
        i <= bounds.len(),
    ensures
        i <= first_closed(bounds, i) <= bounds.len(),
        first_closed(bounds, i) < bounds.len() ==> bounds[first_closed(bounds, i) as int].0.v
            >= bounds[first_closed(bounds, i) as int].1.v,
    decreases bounds.len() - i,
{
    if i < bounds.len() && bounds[i as int].0.v < bounds[i as int].1.v {
        lemma_first_closed(bounds, i + 1);
    }
}

/// Bounds are accepted exactly where there are some, and each lower bound lies
/// below its upper bound.
pub proof fn open_bounds_are_accepted<T: Elementary>(bounds: Seq<(Real<T>, Real<T>)>)
    ensures
        bounds_fault(bounds) is None <==> {
            &&& bounds.len() > 0
            &&& forall|i: int|
                0 <= i < bounds.len() ==> (#[trigger] bounds[i]).0.v < bounds[i].1.v
        },
{
    lemma_first_closed(bounds, 0);
    if bounds_fault(bounds) is None {
        assert forall|i: int| 0 <= i < bounds.len() implies (#[trigger] bounds[i]).0.v
            < bounds[i].1.v by {
            lemma_open_before(bounds, 0, i as nat);
        }
    }
}

/// A DDS search is accepted exactly where its bounds are, its starting solution
/// has a value for each of them, its budget is two at least and its perturbation
/// lies above zero and not above one.
pub proof fn dds_settings_are_accepted_in_range<T: Elementary>(
    bounds: Seq<(Real<T>, Real<T>)>,
    init: Option<nat>,
    config: DdsConfig<Real<T>>,
)
    ensures
        dds_fault(bounds, init, config) is None <==> {
            &&& bounds_fault(bounds) is None
            &&& init is Some ==> init->0 == bounds.len()
            &&& config.max_iter >= 2
            &&& 0real < config.r.v <= 1real
        },
{
}

/// A SCE-UA search is accepted exactly where its bounds are, it has a complex, and
/// its budget allows for `2 n + 1` points in each complex.
pub proof fn sce_settings_are_accepted_in_range<T: Elementary>(
    bounds: Seq<(Real<T>, Real<T>)>,
    config: SceConfig,
)
    ensures
        sce_fault(bounds, config) is None <==> {
            &&& bounds_fault(bounds) is None
            &&& config.complexes >= 1
            &&& config.complexes * (2 * bounds.len() + 1) <= config.max_iter
        },
{
}

/// A reach is accepted exactly where its travel time is positive and its weight
/// lies between zero and one half.
pub proof fn reaches_are_accepted_in_range<T: Elementary>(k: Real<T>, x: Real<T>)
    ensures
        reach_fault(k, x) is None <==> k.v > 0real && 0real <= x.v && 2real * x.v <= 1real,
{
    lemma_quotient(1real, 2real);
}

/// Series are accepted exactly where they have one length, and a warm-up exactly
/// where it leaves a step.
pub proof fn series_of_one_length_are_accepted(
    precip: nat,
    pet: nat,
    temp: nat,
    qobs: nat,
    warmup: nat,
)
    ensures
        gr4j_forcing_fault(precip, pet) is None <==> precip == pet,
        hbv_forcing_fault(precip, pet, None) is None <==> precip == pet,
        hbv_forcing_fault(precip, pet, Some(temp)) is None <==> precip == pet && temp == precip,
        series_fault(precip, pet, qobs, warmup) is None <==> precip == pet && qobs == precip
            && warmup < precip,
        banded_series_fault(precip, pet, temp, qobs, warmup) is None <==> precip == pet && qobs
            == precip && temp == precip && warmup < precip,
{
}

/// A candidate holds its parameters in order: x1 to x4 for GR4J; FC, LP, BETA, K0,
/// K1, K2, UZL, PERC, MAXBAS for HBV, with TT, CFMAX, SFCF in front where there is
/// snow, and the two lapse rates behind where there are bands.
pub proof fn candidates_hold_parameters_in_order<F: Arith>(
    x: Seq<F>,
    snow: Seq<F>,
    lapse: Seq<F>,
    bands: Layout<F>,
)
    requires
        snow.len() == 3,
        lapse.len() == 2,
    ensures
        x.len() == 4 ==> {
            let g = gr4j_candidate(x);
            x == seq![g.x1, g.x2, g.x3, g.x4]
        },
        x.len() == 9 ==> {
            let d = hbv_candidate(x, false);
            let s = hbv_candidate(snow + x, true);
            let b = hbv_candidate(snow + x + lapse, true);
            &&& x == seq![d.fc, d.lp, d.beta, d.k0, d.k1, d.k2, d.uzl, d.perc, d.maxbas]
            &&& x == seq![s.fc, s.lp, s.beta, s.k0, s.k1, s.k2, s.uzl, s.perc, s.maxbas]
            &&& snow == seq![s.tt, s.cfmax, s.sfcf]
            &&& b == s
            &&& lapse == seq![
                with_lapse(bands, snow + x + lapse).tcalt,
                with_lapse(bands, snow + x + lapse).pcalt,
            ]
            &&& with_lapse(bands, snow + x + lapse).bands == bands.bands
            &&& with_lapse(bands, snow + x + lapse).reference_elevation
                == bands.reference_elevation
        },
{
    if x.len() == 4 {
        let g = gr4j_candidate(x);
        assert(x =~= seq![g.x1, g.x2, g.x3, g.x4]);
    }
    if x.len() == 9 {
        let d = hbv_candidate(x, false);
        let s = hbv_candidate(snow + x, true);
        let b = hbv_candidate(snow + x + lapse, true);
        assert(x =~= seq![d.fc, d.lp, d.beta, d.k0, d.k1, d.k2, d.uzl, d.perc, d.maxbas]);
        assert((snow + x).skip(3) =~= x);
        assert(x =~= seq![s.fc, s.lp, s.beta, s.k0, s.k1, s.k2, s.uzl, s.perc, s.maxbas]);
        assert(snow =~= seq![s.tt, s.cfmax, s.sfcf]);
        assert((snow + x + lapse).skip(3) =~= x + lapse);
        let w = with_lapse(bands, snow + x + lapse);
        assert(lapse =~= seq![w.tcalt, w.pcalt]);
    }
}

/// Refreezing and holding capacity are not searched for: they stay at 0.05 and
/// 0.1. Without snow the threshold is zero, three millimetres melt per degree,
/// and snowfall is not corrected.
pub proof fn fixed_parameters_of_candidates<T: Elementary>(x: Seq<Real<T>>, with_snow: bool)
    ensures
        ({
            let c = hbv_candidate(x, with_snow);
            &&& 100real * c.cfr.v == 5real
            &&& 10real * c.cwh.v == 1real
            &&& !with_snow ==> c.tt.v == 0real && c.cfmax.v == 3real && c.sfcf.v == 1real
        }),
{
    lemma_quotient(1real, 20real);
    lemma_quotient(1real, 10real);
}

/// Each objective is the metric of its name, where that is defined.
pub proof fn objectives_are_their_metrics<F: Arith>(obs: Seq<F>, sim: Seq<F>, v: F)
    ensures
        objective_value(Objective::Nse, obs, sim) == Some(v) <==> nse_result(obs, sim) is Ok
            && nse_result(obs, sim)->Ok_0 == v,
        objective_value(Objective::Kge, obs, sim) == Some(v) <==> kge_result(obs, sim) is Ok
            && kge_result(obs, sim)->Ok_0 == v,
        objective_value(Objective::LogNse, obs, sim) == Some(v) <==> log_nse_result(obs, sim) is Ok
            && log_nse_result(obs, sim)->Ok_0 == v,
{
}

/// A warm-up leaves out exactly the first steps of both series, and what is left
/// is scored as it would be without one.
pub proof fn warmup_leaves_out_the_first_steps<F: Arith>(
    objective: Objective,
    warmed: Seq<F>,
    spun: Seq<F>,
    qobs: Seq<F>,
    qsim: Seq<F>,
)
    requires
        warmed.len() == spun.len(),
        qobs.len() == qsim.len(),
    ensures
        score(objective, warmed + qobs, spun + qsim, warmed.len()) == score(
            objective,
            qobs,
            qsim,
            0,
        ),
        assessment(warmed + qobs, spun + qsim, warmed.len()) == assessment(qobs, qsim, 0),
{
    assert(after_warmup(warmed + qobs, warmed.len()) =~= qobs);
    assert(after_warmup(spun + qsim, warmed.len()) =~= qsim);
    assert(after_warmup(qobs, 0) =~= qobs);
    assert(after_warmup(qsim, 0) =~= qsim);
    let w = warmed.len() as int;
    assert((warmed + qobs).subrange(w, (warmed + qobs).len() as int) =~= qobs);
    assert((spun + qsim).subrange(w, (spun + qsim).len() as int) =~= qsim);
    assert(qobs.subrange(0, qobs.len() as int) =~= qobs);
    assert(qsim.subrange(0, qsim.len() as int) =~= qsim);
}

/// Without a warm-up the score is the objective where that is finite, and
/// undefined elsewhere; the assessment is each metric.
pub proof fn scores_are_objectives<F: Arith>(objective: Objective, qobs: Seq<F>, qsim: Seq<F>)
    ensures
        match objective_value(objective, qobs, qsim) {
            Some(v) => score(objective, qobs, qsim, 0) == if v.finite() {
                v
            } else {
                F::nothing()
            },
            None => score(objective, qobs, qsim, 0) == F::nothing(),
        },
        ({
            let a = assessment(qobs, qsim, 0);
            &&& a.nse == nse_result(qobs, qsim)
            &&& a.kge == kge_result(qobs, qsim)
            &&& a.log_nse == log_nse_result(qobs, qsim)
            &&& a.pbias == pbias_result(qobs, qsim)
            &&& a.components == kge_components_result(qobs, qsim)
        }),
{
    assert(qobs.subrange(0, qobs.len() as int) =~= qobs);
    assert(qsim.subrange(0, qsim.len() as int) =~= qsim);
}

/// Exactly these names stand for an objective or an optimizer, and an optimizer
/// has the settings it is asked for.
pub proof fn settings_go_by_these_names<F: Arith>(
    key: Seq<char>,
    iterations: usize,
    seed: u64,
    complexes: usize,
)
    ensures
        objective_of("nse"@) == Some(Objective::Nse),
        objective_of("kge"@) == Some(Objective::Kge),
        objective_of("lognse"@) == Some(Objective::LogNse),
        objective_of("log_nse"@) == Some(Objective::LogNse),
        objective_of(key) is Some ==> key == "nse"@ || key == "kge"@ || key == "lognse"@ || key
            == "log_nse"@,
        match optimizer_of::<F>("dds"@, iterations, seed, complexes) {
            Some(Optimizer::Dds(c)) => c.max_iter == iterations && c.seed == seed,
            _ => false,
        },
        match optimizer_of::<F>("sce"@, iterations, seed, complexes) {
            Some(Optimizer::Sce(c)) => c.max_iter == iterations && c.seed == seed && c.complexes
                == complexes,
            _ => false,
        },
        optimizer_of::<F>(key, iterations, seed, complexes) is Some ==> key == "dds"@ || key
            == "sce"@,
{
    reveal_strlit("nse");
    reveal_strlit("kge");
    reveal_strlit("lognse");
    reveal_strlit("log_nse");
    reveal_strlit("dds");
    reveal_strlit("sce");
    assert("kge"@[0] != "nse"@[0]);
    assert("lognse"@.len() != "nse"@.len());
    assert("log_nse"@.len() != "nse"@.len());
    assert("sce"@[0] != "dds"@[0]);
}

/// A simulation is run exactly where the warm-up leaves a step and the model
/// accepts its parameters.
pub proof fn runs_start_where_warmup_and_parameters_allow<T: Elementary>(
    prm: crate::gr4j::Gr4jParams<Real<T>>,
    steps: nat,
    warmup: nat,
)
    ensures
        run_fault(prm, steps, warmup) is None <==> warmup < steps && prm.x1.v > 0real && prm.x3.v
            > 0real && prm.x4.v >= 1real / 2real,
{
}

} // verus!
