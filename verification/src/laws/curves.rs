//! What elevation bands read off a hypsometric curve, and which curves and
//! layouts are accepted.
use vstd::prelude::*;
use crate::bands::ElevationBand;

verus! {

use crate::bands::{
    band_midpoint, band_unsound, curve_fault, default_layout, equal_area_bands, from_knot,
    interpolated, knot_out_of_order, layout_fault, on_segment, quantile_curve, total_area,
    Layout,
};
use crate::exact::{Elementary, Real};
use crate::laws::algebra::{
    lemma_commute, lemma_distribute, lemma_half, lemma_quotient, lemma_quotient_is, lemma_swap,
    lemma_unit,
};
use crate::laws::hypsometry::{lemma_all_sound, lemma_none_unsound, lemma_rising, rises_at, rising};
use crate::number::{sum, Arith};

/// Segments that end before `at` are passed over.
proof fn lemma_reaches_knot<T: Elementary>(
    curve: Seq<(Real<T>, Real<T>)>,
    at: Real<T>,
    j: int,
    i: int,
)
    requires
        rising(curve),
        0 <= j <= i < curve.len() - 1,
        curve[i].0.v < at.v <= curve[i + 1].0.v,
    ensures
        from_knot(curve, at, j) == on_segment(curve[i], curve[i + 1], at),
    decreases i - j,
{
    if j < i {
        lemma_rising(curve, j + 1, i);
        lemma_reaches_knot(curve, at, j + 1, i);
    }
}

/// Between two knots the elevation of a curve lies on the straight line through
/// them; before its first and after its last knot it stays at their elevation.
pub proof fn curves_are_straight_between_knots<T: Elementary>(
    curve: Seq<(Real<T>, Real<T>)>,
    at: Real<T>,
    i: int,
)
    requires
        rising(curve),
        0 <= i < curve.len() - 1,
    ensures
        at.v <= curve[0].0.v ==> interpolated(curve, at) == curve[0].1,
        at.v >= curve.last().0.v && at.v > curve[0].0.v ==> interpolated(curve, at)
            == curve.last().1,
        curve[i].0.v < at.v <= curve[i + 1].0.v && at.v < curve.last().0.v ==> (interpolated(
            curve,
            at,
        ).v - curve[i].1.v) * (curve[i + 1].0.v - curve[i].0.v) == (at.v - curve[i].0.v) * (
        curve[i + 1].1.v - curve[i].1.v),
{
    lemma_rising(curve, 0, i);
    if curve[i].0.v < at.v <= curve[i + 1].0.v && at.v < curve.last().0.v {
        lemma_reaches_knot(curve, at, 0, i);
        let (d, w, h) = (
            at.v - curve[i].0.v,
            curve[i + 1].0.v - curve[i].0.v,
            curve[i + 1].1.v - curve[i].1.v,
        );
        lemma_quotient(d, w);
        lemma_swap(d / w, h, w);
    }
}

/// Each of `n` bands covers the `n`-th part of the area, and band `i` lies at the
/// elevation below which `2 i + 1` of `2 n` parts of the area lie.
pub proof fn bands_lie_at_the_middle_of_their_area<T: Elementary>(
    curve: Seq<(Real<T>, Real<T>)>,
    n: nat,
    i: int,
    at: Real<T>,
)
    requires
        0 <= i < n,
        at.v * (2real * n as real) == 2real * i as real + 1real,
    ensures
        equal_area_bands(curve, n).len() == n,
        equal_area_bands(curve, n)[i].elevation == interpolated(curve, at),
        equal_area_bands(curve, n)[i].area_fraction.v * n as real == 1real,
{
    let m = band_midpoint::<Real<T>>(n, i);
    let nn = n as real;
    lemma_half(1real);
    lemma_commute(at.v, nn);
    lemma_distribute(nn, nn, at.v);
    lemma_commute(at.v, 2real * nn);
    assert(2real * nn == nn + nn);
    lemma_quotient_is(i as real + 1real / 2real, nn, at.v);
    assert(m == at);
    lemma_quotient(1real, nn);
}

/// A layout made by default has a lapse rate of six tenths of a degree and a
/// precipitation gradient of one tenth per 100 m.
pub proof fn default_lapse_rates<T: Elementary>(
    bands: Seq<ElevationBand<Real<T>>>,
    reference: Real<T>,
)
    ensures
        ({
            let cfg = default_layout(bands, reference);
            &&& cfg.bands == bands
            &&& cfg.reference_elevation == reference
            &&& 10real * cfg.tcalt.v == 6real
            &&& 10real * cfg.pcalt.v == 1real
        }),
{
    lemma_quotient(6real, 10real);
    lemma_quotient(1real, 10real);
}

/// The curve through three quantiles starts at the lowest elevation, has half of
/// the area below the median and ends at the highest elevation.
pub proof fn quantile_curve_passes_its_quantiles<T: Elementary>(
    min: Real<T>,
    median: Real<T>,
    max: Real<T>,
    at: Real<T>,
)
    ensures
        at.v == 0real ==> interpolated(quantile_curve(min, median, max), at) == min,
        2real * at.v == 1real ==> interpolated(quantile_curve(min, median, max), at) == median,
        at.v == 1real ==> interpolated(quantile_curve(min, median, max), at) == max,
{
    let curve = quantile_curve(min, median, max);
    lemma_half(1real);
    assert(curve[0].0.v == 0real && curve[1].0.v == 1real / 2real && curve[2].0.v == 1real);
    assert(curve.last() == curve[2]);
    if 2real * at.v == 1real {
        assert(from_knot(curve, at, 0) == on_segment(curve[0], curve[1], at));
        let (d, w) = (at.v - curve[0].0.v, curve[1].0.v - curve[0].0.v);
        assert(d == w && w > 0real);
        lemma_unit(w);
        lemma_quotient_is(d, w, 1real);
        lemma_unit(median.v - min.v);
    }
}

/// A curve makes bands exactly where bands are asked for, there are two knots, and
/// neither fraction nor elevation ever falls.
pub proof fn rising_curves_are_accepted<T: Elementary>(curve: Seq<(Real<T>, Real<T>)>, n: nat)
    ensures
        curve_fault(curve, n) is None <==> n > 0 && curve.len() >= 2 && rising(curve),
{
    if curve_fault(curve, n) is None {
        assert forall|i: int| 0 <= i < curve.len() - 1 implies #[trigger] rises_at(curve, i) by {
            assert(!knot_out_of_order(curve, i));
        }
    }
    if n > 0 && curve.len() >= 2 && rising(curve) {
        assert forall|i: int| 0 <= i < curve.len() - 1 implies !#[trigger] knot_out_of_order(
            curve,
            i,
        ) by {
            assert(rises_at(curve, i));
        }
    }
}

/// A layout is accepted exactly where it has bands, none of negative area, whose
/// areas add up to one but for a thousandth at most.
pub proof fn layouts_that_cover_the_area_are_accepted<T: Elementary>(cfg: Layout<Real<T>>)
    ensures
        ({
            let area = sum(Seq::new(cfg.bands.len(), |i: int| cfg.bands[i].area_fraction)).v;
            layout_fault(cfg) is None <==> {
                &&& cfg.bands.len() > 0
                &&& 1000real * (area - 1real) <= 1real
                &&& 1000real * (1real - area) <= 1real
                &&& forall|i: int|
                    0 <= i < cfg.bands.len() ==> (#[trigger] cfg.bands[i]).area_fraction.v
                        >= 0real
            }
        }),
{
    lemma_quotient(1real, 1000real);
    let area = sum(Seq::new(cfg.bands.len(), |i: int| cfg.bands[i].area_fraction)).v;
    assert(total_area(cfg.bands).v == area);
    if layout_fault(cfg) is None {
        assert forall|i: int| 0 <= i < cfg.bands.len() implies (
        #[trigger] cfg.bands[i]).area_fraction.v >= 0real by {
            lemma_none_unsound(cfg.bands, 0, i as nat);
        }
    }
    if forall|i: int|
        0 <= i < cfg.bands.len() ==> (#[trigger] cfg.bands[i]).area_fraction.v >= 0real {
        assert forall|j: int| 0 <= j < cfg.bands.len() implies !band_unsound(
            #[trigger] cfg.bands[j],
        ) by {}
        lemma_all_sound(cfg.bands, 0);
    }
}

} // verus!
