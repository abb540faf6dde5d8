//! Laws of unit conversions.
use vstd::prelude::*;

verus! {

use crate::exact::{Elementary, Real};
use crate::laws::algebra::{lemma_assoc, lemma_quotient, lemma_quotient_is, lemma_unit};
use crate::number::{one, Arith};
use crate::routing::{areal_runoff, volumetric_flow};

/// Converting runoff to flow and back gives the runoff.
pub proof fn units_round_trip<T: Elementary>(q: Real<T>, area: Real<T>)
    requires
        area.v != 0real,
    ensures
        areal_runoff(volumetric_flow(q, area), area) == q,
        volumetric_flow(areal_runoff(q, area), area) == q,
{
    let (a, v) = (area.v, q.v);
    let f = v * a * 1000real / 86400real;
    lemma_quotient(v * a * 1000real, 86400real);
    lemma_assoc(v, a, 1000real);
    lemma_quotient_is(f * 86400real, a * 1000real, v);
    let g = v * 86400real / (a * 1000real);
    lemma_quotient(v * 86400real, a * 1000real);
    lemma_assoc(g, a, 1000real);
    lemma_quotient_is(g * a * 1000real, 86400real, v);
}

/// One mm/day over 86.4 square kilometres is one cubic metre per second.
pub proof fn units_agree_at_the_reference_area<T: Elementary>()
    ensures
        volumetric_flow(one::<Real<T>>(), Real::<T>::literal(864, 10)) == one::<Real<T>>(),
{
    let a = 864real / 10real;
    lemma_quotient(864real, 10real);
    lemma_unit(a);
    lemma_quotient_is(a * 1000real, 86400real, 1real);
}

/// One millimetre over one square kilometre is a thousand cubic metres, and a day
/// has 86400 seconds.
pub proof fn units_scale_with_area_and_time<T: Elementary>(q: Real<T>, area: Real<T>)
    ensures
        86400real * volumetric_flow(q, area).v == 1000real * (q.v * area.v),
        area.v != 0real ==> 1000real * (areal_runoff(q, area).v * area.v) == 86400real * q.v,
{
    lemma_quotient(q.v * area.v * 1000real, 86400real);
    if area.v != 0real {
        let r = areal_runoff(q, area).v;
        lemma_quotient(q.v * 86400real, area.v * 1000real);
        lemma_assoc(r, area.v, 1000real);
    }
}

} // verus!
