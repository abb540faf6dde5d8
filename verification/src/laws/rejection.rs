//! What is rejected, and what a rejection names.
use vstd::prelude::*;
use crate::bands::ElevationBand;
use crate::calibrate::{DdsConfig, SceConfig};
use crate::gr4j::Gr4jParams;
use crate::hbv::HbvParams;
use crate::routing::Subcatchment;

verus! {

use crate::bands::{
    band_unsound, curve_fault, first_unsound, knot_out_of_order, layout_fault, Layout,
};
use crate::calibrate::{bounds_fault, counted, dds_fault, first_closed, sce_fault};
use crate::error::Fault;
use crate::exact::{Elementary, Real};
use crate::gr4j::gr4j_fault;
use crate::hbv::hbv_fault;
use crate::laws::algebra::lemma_half;
use crate::number::Arith;
use crate::routing::{network_fault, reach_fault};

/// Whether undefined numbers compare with nothing, as those of machines do.
pub open spec fn undefined_compares_with_nothing<F: Arith>() -> bool {
    &&& forall|x: F, y: F| x.undefined() || y.undefined() ==> !#[trigger] x.below(y)
    &&& forall|x: F, y: F| x.undefined() || y.undefined() ==> !#[trigger] x.within(y)
}

/// Undefined GR4J parameters are rejected.
pub proof fn undefined_gr4j_parameters_are_rejected<F: Arith>(prm: Gr4jParams<F>)
    requires
        prm.x1.undefined() || prm.x2.undefined() || prm.x3.undefined() || prm.x4.undefined(),
    ensures
        gr4j_fault(prm) is Some,
{
}

/// Undefined HBV parameters are rejected, but for the threshold temperature,
/// which may be any number.
pub proof fn undefined_hbv_parameters_are_rejected<F: Arith>(prm: HbvParams<F>)
    requires
        undefined_compares_with_nothing::<F>(),
        ({
            ||| prm.cfmax.undefined()
            ||| prm.sfcf.undefined()
            ||| prm.cfr.undefined()
            ||| prm.cwh.undefined()
            ||| prm.fc.undefined()
            ||| prm.lp.undefined()
            ||| prm.beta.undefined()
            ||| prm.k0.undefined()
            ||| prm.k1.undefined()
            ||| prm.k2.undefined()
            ||| prm.uzl.undefined()
            ||| prm.perc.undefined()
            ||| prm.maxbas.undefined()
        }),
    ensures
        hbv_fault(prm) is Some,
{
}

/// An undefined threshold temperature makes no difference to whether parameters
/// are accepted.
pub proof fn threshold_temperature_may_be_any_number<F: Arith>(prm: HbvParams<F>, tt: F)
    ensures
        hbv_fault(HbvParams { tt, ..prm }) == hbv_fault(prm),
{
}

/// Undefined reaches and time steps are rejected.
pub proof fn undefined_reaches_are_rejected<F: Arith>(
    k: F,
    x: F,
    nodes: Seq<Subcatchment<F>>,
    dt: F,
)
    ensures
        k.undefined() || x.undefined() ==> reach_fault(k, x) is Some,
        dt.undefined() ==> network_fault(nodes, dt) is Some,
{
}

/// Undefined bounds and an undefined perturbation are rejected.
pub proof fn undefined_bounds_are_rejected<F: Arith>(
    bounds: Seq<(F, F)>,
    init: Option<nat>,
    dds: DdsConfig<F>,
    sce: SceConfig,
    i: int,
)
    requires
        undefined_compares_with_nothing::<F>(),
        0 <= i < bounds.len(),
        bounds[i].0.undefined() || bounds[i].1.undefined() || dds.r.undefined(),
    ensures
        dds_fault(bounds, init, dds) is Some,
        !dds.r.undefined() ==> bounds_fault(bounds) is Some && sce_fault(bounds, sce) is Some,
{
    if !dds.r.undefined() {
        lemma_closed_before(bounds, 0, i as nat);
    }
}

/// The search for a closed dimension does not pass one.
proof fn lemma_closed_before<F: Arith>(bounds: Seq<(F, F)>, i: nat, j: nat)
    requires
        i <= j < bounds.len(),
        !bounds[j as int].0.below(bounds[j as int].1),
    ensures
        first_closed(bounds, i) <= j,
    decreases j - i,
{
    if i < j {
        lemma_closed_before(bounds, i + 1, j);
    }
}

/// A knot that is not finite makes no curve, unless it is the last.
pub proof fn knots_must_be_finite<F: Arith>(curve: Seq<(F, F)>, n: nat, i: int)
    requires
        0 <= i < curve.len() - 1,
        !curve[i].0.finite() || !curve[i].1.finite(),
    ensures
        curve_fault(curve, n) is Some,
{
    assert(knot_out_of_order(curve, i));
}

/// An elevation or a lapse rate that is not finite makes no layout.
pub proof fn layouts_must_be_finite<F: Arith>(cfg: Layout<F>, i: int)
    requires
        0 <= i < cfg.bands.len(),
        !cfg.bands[i].elevation.finite() || !cfg.tcalt.finite() || !cfg.pcalt.finite(),
    ensures
        layout_fault(cfg) is Some,
{
    if !cfg.bands[i].elevation.finite() {
        lemma_unsound_before(cfg.bands, 0, i as nat);
    }
}

/// The search for an unsound band does not pass one.
proof fn lemma_unsound_before<F: Arith>(
    bands: Seq<ElevationBand<F>>,
    i: nat,
    j: nat,
)
    requires
        i <= j < bands.len(),
        band_unsound(bands[j as int]),
    ensures
        first_unsound(bands, i) <= j,
    decreases j - i,
{
    if i < j {
        lemma_unsound_before(bands, i + 1, j);
    }
}

/// Whether a fault is one of the parameter `name`.
pub open spec fn names(fault: Option<Fault>, name: Seq<char>) -> bool {
    match fault {
        Some(Fault::InvalidParameter { name: n, reason: _ }) => n == name,
        _ => false,
    }
}

/// A rejection of GR4J parameters names the first that is out of range.
pub proof fn gr4j_rejection_names_the_first<T: Elementary>(prm: Gr4jParams<Real<T>>)
    ensures
        prm.x1.v <= 0real ==> names(gr4j_fault(prm), "x1"@),
        prm.x1.v > 0real && prm.x3.v <= 0real ==> names(gr4j_fault(prm), "x3"@),
        prm.x1.v > 0real && prm.x3.v > 0real && 2real * prm.x4.v < 1real ==> names(
            gr4j_fault(prm),
            "x4"@,
        ),
{
    lemma_half(1real);
}

/// A rejection of HBV parameters names the first that is out of range.
pub proof fn hbv_rejection_names_the_first<T: Elementary>(prm: HbvParams<Real<T>>)
    ensures
        hbv_fault(prm) is Some ==> names(
            hbv_fault(prm),
            if prm.cfmax.v < 0real {
                "cfmax"@
            } else if prm.sfcf.v <= 0real {
                "sfcf"@
            } else if prm.cfr.v < 0real || prm.cfr.v > 1real {
                "cfr"@
            } else if prm.cwh.v < 0real {
                "cwh"@
            } else if prm.fc.v <= 0real {
                "fc"@
            } else if prm.lp.v <= 0real || prm.lp.v > 1real {
                "lp"@
            } else if prm.beta.v <= 0real {
                "beta"@
            } else if prm.k0.v < 0real || prm.k0.v > 1real {
                "k0"@
            } else if prm.k1.v < 0real || prm.k1.v > 1real {
                "k1"@
            } else if prm.k2.v < 0real || prm.k2.v > 1real {
                "k2"@
            } else if prm.uzl.v < 0real {
                "uzl"@
            } else if prm.perc.v < 0real {
                "perc"@
            } else {
                "maxbas"@
            },
        ),
{
}

/// A rejection of a search names the first of its settings that is out of range.
pub proof fn search_rejection_names_the_first<T: Elementary>(
    bounds: Seq<(Real<T>, Real<T>)>,
    init: Option<nat>,
    dds: DdsConfig<Real<T>>,
    sce: SceConfig,
)
    ensures
        dds_fault(bounds, init, dds) is Some ==> names(
            dds_fault(bounds, init, dds),
            if bounds_fault(bounds) is Some {
                "bounds"@
            } else if init is Some && init->0 != bounds.len() {
                "init"@
            } else if dds.max_iter < 2 {
                "max_iter"@
            } else {
                "r"@
            },
        ),
        sce_fault(bounds, sce) is Some ==> names(
            sce_fault(bounds, sce),
            if bounds_fault(bounds) is Some {
                "bounds"@
            } else if sce.complexes == 0 {
                "complexes"@
            } else {
                "max_iter"@
            },
        ),
{
}

/// A value counts for itself where it is finite, and for nothing elsewhere.
pub proof fn only_finite_values_count<F: Arith>(v: F)
    ensures
        v.finite() ==> counted(v) == v,
        !v.finite() ==> counted(v) == F::nothing(),
{
}

} // verus!
