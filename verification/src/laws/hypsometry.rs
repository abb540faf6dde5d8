//! Laws of elevation bands made from hypsometric curves.
use vstd::prelude::*;
use crate::bands::ElevationBand;

verus! {

use crate::bands::{
    band_midpoint, band_unsound, curve_fault, default_layout, equal_area_band, equal_area_bands,
    first_unsound, from_knot, interpolated, knot_out_of_order, layout_fault, on_segment,
    quantile_curve, total_area, Layout,
};
use crate::exact::{Elementary, Real};
use crate::laws::algebra::{
    lemma_assoc, lemma_distribute, lemma_half, lemma_product_mono, lemma_product_sign,
    lemma_quotient, lemma_quotient_is, lemma_quotient_mono, lemma_quotient_sign, lemma_unit,
};
use crate::laws::bands::areas_sound;
use crate::laws::sums::lemma_sum_equal;
use crate::number::{one, Arith};

/// Whether neither fraction nor elevation falls from knot `i` to the next.
pub open spec fn rises_at<T: Elementary>(curve: Seq<(Real<T>, Real<T>)>, i: int) -> bool {
    curve[i].0.v <= curve[i + 1].0.v && curve[i].1.v <= curve[i + 1].1.v
}

/// Whether fractions and elevations of a curve never fall.
pub open spec fn rising<T: Elementary>(curve: Seq<(Real<T>, Real<T>)>) -> bool {
    forall|i: int| 0 <= i < curve.len() - 1 ==> #[trigger] rises_at(curve, i)
}

/// The knots of a rising curve lie between its ends.
pub(crate) proof fn lemma_rising<T: Elementary>(curve: Seq<(Real<T>, Real<T>)>, i: int, j: int)
    requires
        rising(curve),
        0 <= i <= j < curve.len(),
    ensures
        curve[i].0.v <= curve[j].0.v,
        curve[i].1.v <= curve[j].1.v,
    decreases j - i,
{
    if i < j {
        lemma_rising(curve, i, j - 1);
        assert(rises_at(curve, j - 1));
    }
}

/// Interpolation on a rising segment rises and stays within the segment.
proof fn lemma_segment<T: Elementary>(
    from: (Real<T>, Real<T>),
    to: (Real<T>, Real<T>),
    at: Real<T>,
    then_at: Real<T>,
)
    requires
        from.1.v <= to.1.v,
        from.0.v <= at.v <= then_at.v <= to.0.v,
    ensures
        from.1.v <= on_segment(from, to, at).v <= on_segment(from, to, then_at).v <= to.1.v,
{
    if to.0.v != from.0.v {
        let (w, h) = (to.0.v - from.0.v, to.1.v - from.1.v);
        let (a, b) = ((at.v - from.0.v) / w, (then_at.v - from.0.v) / w);
        lemma_quotient_sign(at.v - from.0.v, w);
        lemma_quotient_mono(at.v - from.0.v, then_at.v - from.0.v, w);
        lemma_quotient_mono(then_at.v - from.0.v, w, w);
        lemma_unit(w);
        lemma_quotient_is(w, w, 1real);
        lemma_product_sign(a, h);
        lemma_product_mono(a, b, h);
        lemma_product_mono(b, 1real, h);
        lemma_distribute(a, b, h);
        lemma_unit(h);
    }
}

/// Interpolation from a knot on rises and stays within the curve.
proof fn lemma_from_knot<T: Elementary>(
    curve: Seq<(Real<T>, Real<T>)>,
    at: Real<T>,
    then_at: Real<T>,
    i: int,
)
    requires
        rising(curve),
        0 <= i < curve.len(),
        curve[i].0.v <= at.v <= then_at.v,
    ensures
        curve[i].1.v <= from_knot(curve, at, i).v,
        from_knot(curve, at, i).v <= from_knot(curve, then_at, i).v,
        from_knot(curve, then_at, i).v <= curve.last().1.v,
    decreases curve.len() - i,
{
    lemma_rising(curve, i, curve.len() - 1);
    if i + 1 < curve.len() {
        let (from, to) = (curve[i], curve[i + 1]);
        assert(rises_at(curve, i));
        lemma_rising(curve, i + 1, curve.len() - 1);
        if then_at.v <= to.0.v {
            lemma_segment(from, to, at, then_at);
        } else if at.v <= to.0.v {
            lemma_segment(from, to, at, at);
            lemma_from_knot(curve, then_at, then_at, i + 1);
        } else {
            lemma_from_knot(curve, at, then_at, i + 1);
        }
    }
}

/// Interpolation of a rising curve never falls and stays between the ends of
/// the curve.
pub proof fn interpolation_rises_within_the_curve<T: Elementary>(
    curve: Seq<(Real<T>, Real<T>)>,
    at: Real<T>,
    then_at: Real<T>,
)
    requires
        rising(curve),
        curve.len() > 0,
        at.v <= then_at.v,
    ensures
        curve[0].1.v <= interpolated(curve, at).v,
        interpolated(curve, at).v <= interpolated(curve, then_at).v,
        interpolated(curve, then_at).v <= curve.last().1.v,
{
    lemma_rising(curve, 0, curve.len() - 1);
    if curve[0].0.v < at.v {
        lemma_from_knot(curve, at, then_at, 0);
    } else if curve[0].0.v < then_at.v {
        lemma_from_knot(curve, then_at, then_at, 0);
    }
}

/// An accepted curve rises.
proof fn lemma_accepted_curve<T: Elementary>(curve: Seq<(Real<T>, Real<T>)>, n: nat)
    requires
        curve_fault(curve, n) is None,
    ensures
        rising(curve),
        curve.len() >= 2,
        n > 0,
{
    assert forall|i: int| 0 <= i < curve.len() - 1 implies #[trigger] rises_at(curve, i) by {
        assert(!knot_out_of_order(curve, i));
    }
}

/// Bands of equal area rise from the bottom to the top of the curve.
pub proof fn equal_area_bands_rise<T: Elementary>(
    curve: Seq<(Real<T>, Real<T>)>,
    n: nat,
    i: int,
    j: int,
)
    requires
        curve_fault(curve, n) is None,
        0 <= i <= j < n,
    ensures
        equal_area_bands(curve, n).len() == n,
        ({
            let bands = equal_area_bands(curve, n);
            curve[0].1.v <= bands[i].elevation.v <= bands[j].elevation.v <= curve.last().1.v
        }),
{
    lemma_accepted_curve(curve, n);
    let (a, b) = (band_midpoint::<Real<T>>(n, i), band_midpoint::<Real<T>>(n, j));
    lemma_quotient_mono(i as real + 1real / 2real, j as real + 1real / 2real, n as real);
    assert(a.v <= b.v);
    interpolation_rises_within_the_curve(curve, a, b);
}

/// Bands of equal area cover the whole catchment.
pub proof fn equal_area_bands_cover_the_catchment<T: Elementary>(
    curve: Seq<(Real<T>, Real<T>)>,
    n: nat,
)
    requires
        n > 0,
    ensures
        total_area(equal_area_bands(curve, n)) == one::<Real<T>>(),
        forall|i: int|
            0 <= i < n ==> (#[trigger] equal_area_bands(curve, n)[i]).area_fraction.v > 0real,
{
    let bands = equal_area_bands(curve, n);
    let shares = Seq::new(bands.len(), |i: int| bands[i].area_fraction);
    let share = one::<Real<T>>().over(Real::<T>::natural(n));
    assert forall|i: int| 0 <= i < shares.len() implies (#[trigger] shares[i]).v == share.v by {}
    lemma_sum_equal(shares, share.v);
    lemma_quotient(1real, n as real);
    lemma_distribute(1real / n as real, 0real, n as real);
    lemma_quotient_sign(1real, n as real);
    if share.v == 0real {
        lemma_unit(n as real);
    }
}

/// Sound bands are passed over.
pub(crate) proof fn lemma_all_sound<F: Arith>(bands: Seq<ElevationBand<F>>, i: nat)
    requires
        i <= bands.len(),
        forall|j: int| 0 <= j < bands.len() ==> !band_unsound(#[trigger] bands[j]),
    ensures
        first_unsound(bands, i) == bands.len(),
    decreases bands.len() - i,
{
    if i < bands.len() {
        assert(!band_unsound(bands[i as int]));
        lemma_all_sound(bands, i + 1);
    }
}

/// A layout made from an accepted curve is itself accepted.
pub proof fn hypsometric_layout_is_accepted<T: Elementary>(
    curve: Seq<(Real<T>, Real<T>)>,
    n: nat,
    reference: Real<T>,
)
    requires
        curve_fault(curve, n) is None,
    ensures
        layout_fault(default_layout(equal_area_bands(curve, n), reference)) is None,
{
    let bands = equal_area_bands(curve, n);
    equal_area_bands_cover_the_catchment(curve, n);
    assert forall|j: int| 0 <= j < bands.len() implies !band_unsound(#[trigger] bands[j]) by {}
    lemma_all_sound(bands, 0);
    lemma_quotient_sign(1real, 1000real);
}

/// No band of an accepted layout has a negative area.
pub proof fn accepted_layout_has_sound_areas<T: Elementary>(cfg: Layout<Real<T>>)
    requires
        layout_fault(cfg) is None,
    ensures
        areas_sound(cfg),
{
    assert forall|i: int| 0 <= i < cfg.bands.len() implies (#[trigger] cfg.bands[i]).area_fraction.v
        >= 0real by {
        lemma_none_unsound(cfg.bands, 0, i as nat);
    }
}

/// Where the search for an unsound band ends, all before it are sound.
pub(crate) proof fn lemma_none_unsound<F: Arith>(bands: Seq<ElevationBand<F>>, i: nat, j: nat)
    requires
        first_unsound(bands, i) >= bands.len(),
        i <= j < bands.len(),
    ensures
        !band_unsound(bands[j as int]),
    decreases j - i,
{
    if i < j {
        lemma_none_unsound(bands, i + 1, j);
    }
}

/// Elevation of the straight line from `low` to `high` at fraction `at`.
pub open spec fn on_line<T: Elementary>(low: Real<T>, high: Real<T>, at: Real<T>) -> Real<T> {
    low.plus(at.times(high.minus(low)))
}

/// A segment between two points of a line lies on the line.
proof fn lemma_segment_on_line<T: Elementary>(
    low: Real<T>,
    high: Real<T>,
    from: Real<T>,
    to: Real<T>,
    at: Real<T>,
)
    requires
        from.v <= at.v <= to.v,
    ensures
        on_segment((from, on_line(low, high, from)), (to, on_line(low, high, to)), at) == on_line(
            low,
            high,
            at,
        ),
{
    let h = high.v - low.v;
    if to.v != from.v {
        let (w, d) = (to.v - from.v, at.v - from.v);
        lemma_distribute(to.v, from.v, h);
        lemma_distribute(at.v, from.v, h);
        lemma_quotient(d, w);
        lemma_assoc(d / w, w, h);
    }
}

/// Interpolation from a knot on, where all knots lie on a line.
proof fn lemma_from_knot_on_line<T: Elementary>(
    curve: Seq<(Real<T>, Real<T>)>,
    low: Real<T>,
    high: Real<T>,
    at: Real<T>,
    i: int,
)
    requires
        forall|j: int|
            0 <= j < curve.len() ==> (#[trigger] curve[j]).1 == on_line(low, high, curve[j].0),
        0 <= i < curve.len(),
        curve[i].0.v <= at.v < curve.last().0.v,
    ensures
        from_knot(curve, at, i) == on_line(low, high, at),
    decreases curve.len() - i,
{
    assert(i + 1 < curve.len());
    assert(curve[i].1 == on_line(low, high, curve[i].0));
    assert(curve[i + 1].1 == on_line(low, high, curve[i + 1].0));
    if at.v <= curve[i + 1].0.v {
        lemma_segment_on_line(low, high, curve[i].0, curve[i + 1].0, at);
    } else {
        lemma_from_knot_on_line(curve, low, high, at, i + 1);
    }
}

/// On a curve over the whole catchment whose knots lie on a straight line, each
/// band lies at the elevation of its middle.
pub proof fn straight_curve_gives_midpoint_elevations<T: Elementary>(
    curve: Seq<(Real<T>, Real<T>)>,
    low: Real<T>,
    high: Real<T>,
    n: nat,
    i: int,
)
    requires
        curve_fault(curve, n) is None,
        curve[0].0.v == 0real,
        curve.last().0.v == 1real,
        forall|j: int|
            0 <= j < curve.len() ==> (#[trigger] curve[j]).1 == on_line(low, high, curve[j].0),
        0 <= i < n,
    ensures
        equal_area_band(curve, n, i).elevation == on_line(
            low,
            high,
            band_midpoint::<Real<T>>(n, i),
        ),
{
    lemma_midpoint_inside::<T>(n, i);
    lemma_from_knot_on_line(curve, low, high, band_midpoint::<Real<T>>(n, i), 0);
}

/// Midpoints lie strictly inside the unit interval.
proof fn lemma_midpoint_inside<T: Elementary>(n: nat, i: int)
    requires
        0 <= i < n,
    ensures
        0real < band_midpoint::<Real<T>>(n, i).v < 1real,
{
    let at = band_midpoint::<Real<T>>(n, i).v;
    let top = i as real + 1real / 2real;
    lemma_half(1real);
    assert(0real < top < n as real);
    lemma_quotient(top, n as real);
    lemma_quotient_sign(top, n as real);
    lemma_unit(n as real);
    lemma_quotient_mono(top, n as real, n as real);
    lemma_quotient_is(n as real, n as real, 1real);
}

/// With an odd number of bands made from quantiles, the middle band lies at the
/// median elevation.
pub proof fn middle_band_lies_at_the_median<T: Elementary>(
    min: Real<T>,
    median: Real<T>,
    max: Real<T>,
    m: nat,
)
    ensures
        equal_area_band(quantile_curve(min, median, max), 2 * m + 1, m as int).elevation == median,
{
    let curve = quantile_curve(min, median, max);
    let n = 2 * m + 1;
    let at = band_midpoint::<Real<T>>(n, m as int);
    lemma_half(1real);
    let h = 1real / 2real;
    lemma_distribute(n as real, 0real, h);
    lemma_half(n as real);
    lemma_half(2real * m as real + 1real);
    lemma_quotient_is(m as real + h, n as real, h);
    assert(at.v == h);
    assert(from_knot(curve, at, 0) == on_segment(curve[0], curve[1], at));
    lemma_unit(h);
    lemma_quotient_is(h, h, 1real);
    lemma_unit(median.v - min.v);
}

} // verus!
