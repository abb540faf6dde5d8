//! Laws of calibration.
use vstd::prelude::*;
use crate::calibrate::{DdsConfig, Objective, Optimizer, SceConfig};

verus! {

use crate::calibrate::{
    after_warmup, bounds_fault, first_closed, gr4j_bounds, gr4j_candidate, gr4j_worth,
    hbv_bands_bounds, hbv_bounds, hbv_candidate, hbv_worth, score, search_fault,
};
use crate::exact::{Elementary, Real};
use crate::gr4j::{gr4j_fault, gr4j_series, gr4j_start};
use crate::hbv::{hbv_fault, hbv_forcing_fault, hbv_series, hbv_start, series_len};
use crate::laws::algebra::lemma_quotient;
use crate::laws::metrics::{
    all_equal, nse_is_at_most_one, nse_is_defined_for_varying_observations,
    perfect_simulation_has_nse_one,
};
use crate::number::{one, Arith};

/// Open bounds are passed over.
proof fn lemma_all_open<T: Elementary>(bounds: Seq<(Real<T>, Real<T>)>, i: nat)
    requires
        i <= bounds.len(),
        forall|j: int| 0 <= j < bounds.len() ==> (#[trigger] bounds[j]).0.v < bounds[j].1.v,
    ensures
        first_closed(bounds, i) == bounds.len(),
    decreases bounds.len() - i,
{
    if i < bounds.len() {
        assert(bounds[i as int].0.v < bounds[i as int].1.v);
        lemma_all_open(bounds, i + 1);
    }
}

/// The fractions that occur in the default bounds.
proof fn lemma_fractions()
    ensures
        1real / 2real * 2real == 1real,
        2real / 5real * 5real == 2real,
        3real / 10real * 10real == 3real,
        1real / 20real * 20real == 1real,
        99real / 100real * 100real == 99real,
        1real / 100real * 100real == 1real,
        1real / 1000real * 1000real == 1real,
        1real / 5real * 5real == 1real,
        6real / 5real * 5real == 6real,
        1real / 10real * 10real == 1real,
{
    lemma_quotient(1real, 2real);
    lemma_quotient(2real, 5real);
    lemma_quotient(3real, 10real);
    lemma_quotient(1real, 20real);
    lemma_quotient(99real, 100real);
    lemma_quotient(1real, 100real);
    lemma_quotient(1real, 1000real);
    lemma_quotient(1real, 5real);
    lemma_quotient(6real, 5real);
    lemma_quotient(1real, 10real);
}

/// The default bounds of every model enclose a range in each dimension.
pub proof fn default_bounds_are_accepted<T: Elementary>(with_snow: bool)
    ensures
        bounds_fault(gr4j_bounds::<Real<T>>()) is None,
        bounds_fault(hbv_bounds::<Real<T>>(with_snow)) is None,
        bounds_fault(hbv_bands_bounds::<Real<T>>()) is None,
{
    lemma_fractions();
    lemma_all_open(gr4j_bounds::<Real<T>>(), 0);
    lemma_all_open(hbv_bounds::<Real<T>>(with_snow), 0);
    lemma_all_open(hbv_bands_bounds::<Real<T>>(), 0);
}

/// With its default settings either algorithm may search the default bounds of
/// every model.
pub proof fn default_searches_are_accepted<T: Elementary>(
    dds: DdsConfig<Real<T>>,
    sce: SceConfig,
    with_snow: bool,
)
    requires
        dds.max_iter == 1000,
        dds.r == Real::<T>::literal(1, 5),
        sce.complexes == 4,
        sce.max_iter == 10_000,
    ensures
        search_fault(Optimizer::Dds(dds), gr4j_bounds()) is None,
        search_fault(Optimizer::Dds(dds), hbv_bounds(with_snow)) is None,
        search_fault(Optimizer::Dds(dds), hbv_bands_bounds()) is None,
        search_fault(Optimizer::<Real<T>>::Sce(sce), gr4j_bounds()) is None,
        search_fault(Optimizer::<Real<T>>::Sce(sce), hbv_bounds(with_snow)) is None,
        search_fault(Optimizer::<Real<T>>::Sce(sce), hbv_bands_bounds()) is None,
{
    lemma_fractions();
    default_bounds_are_accepted::<T>(with_snow);
}

/// Whether a candidate lies within the bounds.
pub open spec fn inside<T: Elementary>(
    x: Seq<Real<T>>,
    bounds: Seq<(Real<T>, Real<T>)>,
) -> bool {
    &&& x.len() == bounds.len()
    &&& forall|i: int|
        0 <= i < bounds.len() ==> (#[trigger] bounds[i]).0.v <= x[i].v <= bounds[i].1.v
}

/// Every candidate within the default bounds is an accepted GR4J parameter set.
pub proof fn gr4j_candidates_are_accepted<T: Elementary>(x: Seq<Real<T>>)
    requires
        inside(x, gr4j_bounds()),
    ensures
        gr4j_fault(gr4j_candidate(x)) is None,
{
    let b = gr4j_bounds::<Real<T>>();
    lemma_fractions();
    assert(b[0].0.v <= x[0].v);
    assert(b[2].0.v <= x[2].v);
    assert(b[3].0.v <= x[3].v);
}

/// Every candidate within the default bounds is an accepted HBV parameter set.
pub proof fn hbv_candidates_are_accepted<T: Elementary>(x: Seq<Real<T>>, with_snow: bool)
    requires
        inside(x, hbv_bounds(with_snow)),
    ensures
        hbv_fault(hbv_candidate(x, with_snow)) is None,
{
    let b = hbv_bounds::<Real<T>>(with_snow);
    lemma_fractions();
    let k: int = if with_snow { 3 } else { 0 };
    if with_snow {
        assert(b[1].0.v <= x[1].v);
        assert(b[2].0.v <= x[2].v);
    }
    let rest = if with_snow { x.skip(3) } else { x };
    assert forall|i: int| 0 <= i < 9 implies #[trigger] rest[i] == x[k + i] by {}
    assert(b[k].0.v <= x[k].v <= b[k].1.v);
    assert(b[k + 1].0.v <= x[k + 1].v <= b[k + 1].1.v);
    assert(b[k + 2].0.v <= x[k + 2].v <= b[k + 2].1.v);
    assert(b[k + 3].0.v <= x[k + 3].v <= b[k + 3].1.v);
    assert(b[k + 4].0.v <= x[k + 4].v <= b[k + 4].1.v);
    assert(b[k + 5].0.v <= x[k + 5].v <= b[k + 5].1.v);
    assert(b[k + 6].0.v <= x[k + 6].v <= b[k + 6].1.v);
    assert(b[k + 7].0.v <= x[k + 7].v <= b[k + 7].1.v);
    assert(b[k + 8].0.v <= x[k + 8].v <= b[k + 8].1.v);
}

/// Against a discharge that the model itself made, the parameters that made it
/// reach the highest Nash-Sutcliffe efficiency there is, which is one.
pub proof fn gr4j_truth_is_a_best_candidate<T: Elementary>(
    precip: Seq<Real<T>>,
    pet: Seq<Real<T>>,
    warmup: nat,
    truth: Seq<Real<T>>,
    x: Seq<Real<T>>,
)
    requires
        precip.len() == pet.len(),
        warmup + 2 <= precip.len(),
        gr4j_fault(gr4j_candidate(truth)) is None,
        gr4j_fault(gr4j_candidate(x)) is None,
        ({
            let prm = gr4j_candidate(truth);
            let qobs = gr4j_series(prm, gr4j_start(prm), precip, pet);
            !all_equal(after_warmup(qobs, warmup))
        }),
    ensures
        ({
            let prm = gr4j_candidate(truth);
            let qobs = gr4j_series(prm, gr4j_start(prm), precip, pet);
            let best = gr4j_worth(precip, pet, qobs, warmup, Objective::Nse, truth);
            &&& best == one::<Real<T>>()
            &&& gr4j_worth(precip, pet, qobs, warmup, Objective::Nse, x).v <= best.v
        }),
{
    let prm = gr4j_candidate(truth);
    let qobs = gr4j_series(prm, gr4j_start(prm), precip, pet);
    let other = gr4j_candidate(x);
    let qsim = gr4j_series(other, gr4j_start(other), precip, pet);
    lemma_nse_scores(qobs, qsim, warmup);
}

/// Against a discharge that the model itself made, the parameters that made it
/// reach the highest Nash-Sutcliffe efficiency there is, which is one.
pub proof fn hbv_truth_is_a_best_candidate<T: Elementary>(
    precip: Seq<Real<T>>,
    pet: Seq<Real<T>>,
    temp: Option<Seq<Real<T>>>,
    warmup: nat,
    truth: Seq<Real<T>>,
    x: Seq<Real<T>>,
)
    requires
        hbv_forcing_fault(precip.len(), pet.len(), series_len(temp)) is None,
        warmup + 2 <= precip.len(),
        hbv_fault(hbv_candidate(truth, temp is Some)) is None,
        hbv_fault(hbv_candidate(x, temp is Some)) is None,
        ({
            let prm = hbv_candidate(truth, temp is Some);
            let qobs = hbv_series(prm, hbv_start(prm), precip, pet, temp);
            !all_equal(after_warmup(qobs, warmup))
        }),
    ensures
        ({
            let prm = hbv_candidate(truth, temp is Some);
            let qobs = hbv_series(prm, hbv_start(prm), precip, pet, temp);
            let best = hbv_worth(precip, pet, temp, qobs, warmup, Objective::Nse, truth);
            &&& best == one::<Real<T>>()
            &&& hbv_worth(precip, pet, temp, qobs, warmup, Objective::Nse, x).v <= best.v
        }),
{
    let prm = hbv_candidate(truth, temp is Some);
    let qobs = hbv_series(prm, hbv_start(prm), precip, pet, temp);
    let other = hbv_candidate(x, temp is Some);
    let qsim = hbv_series(other, hbv_start(other), precip, pet, temp);
    lemma_nse_scores(qobs, qsim, warmup);
}

/// A simulation scores at most what the observations score against themselves.
proof fn lemma_nse_scores<T: Elementary>(qobs: Seq<Real<T>>, qsim: Seq<Real<T>>, warmup: nat)
    requires
        qobs.len() == qsim.len(),
        warmup + 2 <= qobs.len(),
        !all_equal(after_warmup(qobs, warmup)),
    ensures
        score(Objective::Nse, qobs, qobs, warmup) == one::<Real<T>>(),
        score(Objective::Nse, qobs, qsim, warmup).v <= 1real,
{
    let (o, s) = (after_warmup(qobs, warmup), after_warmup(qsim, warmup));
    perfect_simulation_has_nse_one(o);
    nse_is_defined_for_varying_observations(o, s);
    nse_is_at_most_one(o, s);
}

} // verus!
