//! The semi-distributed model does not depend on the order of its bands, nor on
//! whether a band is counted as one or as two.
use vstd::prelude::*;
use crate::bands::BandState;
use crate::hbv::HbvParams;

verus! {

use crate::bands::{
    band_next, band_recharge, banded_after, banded_discharge, banded_next, banded_series,
    banded_start, catchment_recharge, lift, total_recharge, BandedStores, Layout,
};
use crate::exact::{Elementary, Real};
use crate::laws::algebra::lemma_distribute;
use crate::laws::sums::lemma_sum_remove;
use crate::number::{sum, Arith};

/// The share of each band in the recharge of a step.
spec fn shares<T: Elementary>(
    prm: HbvParams<Real<T>>,
    cfg: Layout<Real<T>>,
    bands: Seq<BandState<Real<T>>>,
    p: Real<T>,
    t: Real<T>,
    pet: Real<T>,
) -> Seq<Real<T>> {
    Seq::new(
        cfg.bands.len(),
        |i: int|
            cfg.bands[i].area_fraction.times(
                band_recharge(prm, cfg, i, bands[i], p, t, pet),
            ),
    )
}

/// The recharge of a step is the sum of the shares.
proof fn lemma_shares<T: Elementary>(
    prm: HbvParams<Real<T>>,
    cfg: Layout<Real<T>>,
    bands: Seq<BandState<Real<T>>>,
    p: Real<T>,
    t: Real<T>,
    pet: Real<T>,
    n: nat,
)
    requires
        n <= cfg.bands.len(),
    ensures
        total_recharge(prm, cfg, bands, p, t, pet, n) == sum(
            shares(prm, cfg, bands, p, t, pet).take(n as int),
        ),
    decreases n,
{
    let s = shares(prm, cfg, bands, p, t, pet);
    if n > 0 {
        lemma_shares(prm, cfg, bands, p, t, pet, (n - 1) as nat);
        assert(s.take(n as int).drop_last() =~= s.take(n - 1));
    }
}

/// The recharge of the catchment is the sum of all shares.
proof fn lemma_all_shares<T: Elementary>(
    prm: HbvParams<Real<T>>,
    cfg: Layout<Real<T>>,
    st: BandedStores<Real<T>>,
    p: Real<T>,
    t: Real<T>,
    pet: Real<T>,
)
    requires
        st.bands.len() == cfg.bands.len(),
    ensures
        catchment_recharge(prm, cfg, st, p, t, pet) == sum(
            shares(prm, cfg, st.bands, p, t, pet),
        ),
{
    let s = shares(prm, cfg, st.bands, p, t, pet);
    lemma_shares(prm, cfg, st.bands, p, t, pet, cfg.bands.len());
    assert(s.take(cfg.bands.len() as int) =~= s);
}

/// What a band does depends on its own elevation alone.
proof fn lemma_same_band<T: Elementary>(
    prm: HbvParams<Real<T>>,
    a: Layout<Real<T>>,
    i: int,
    b: Layout<Real<T>>,
    j: int,
    st: BandState<Real<T>>,
    p: Real<T>,
    t: Real<T>,
    pet: Real<T>,
)
    requires
        same_setting(a, b),
        a.bands[i].elevation == b.bands[j].elevation,
    ensures
        band_next(prm, a, i, st, p, t, pet) == band_next(prm, b, j, st, p, t, pet),
        band_recharge(prm, a, i, st, p, t, pet) == band_recharge(prm, b, j, st, p, t, pet),
{
    assert(lift(a, i) == lift(b, j));
}

/// Whether two layouts differ in their bands at most.
pub open spec fn same_setting<F>(a: Layout<F>, b: Layout<F>) -> bool {
    &&& a.reference_elevation == b.reference_elevation
    &&& a.tcalt == b.tcalt
    &&& a.pcalt == b.pcalt
}

/// Whether `order` names each of the first `n` indices once.
pub open spec fn ordering(order: Seq<int>, n: nat) -> bool {
    &&& order.len() == n
    &&& order.no_duplicates()
    &&& forall|i: int| 0 <= i < n ==> 0 <= #[trigger] order[i] < n
    &&& forall|v: int| 0 <= v < n ==> #[trigger] order.contains(v)
}

/// A sum does not depend on the order of its terms.
proof fn lemma_sum_reordered<T: Elementary>(
    s: Seq<Real<T>>,
    t: Seq<Real<T>>,
    order: Seq<int>,
)
    requires
        ordering(order, s.len()),
        t.len() == s.len(),
        forall|i: int| 0 <= i < t.len() ==> #[trigger] t[i] == s[order[i]],
    ensures
        sum(t).v == sum(s).v,
    decreases s.len(),
{
    if s.len() > 0 {
        let n = s.len() as int;
        assert(order.contains(n - 1));
        let k = choose|k: int| 0 <= k < order.len() && order[k] == n - 1;
        let rest = order.remove(k);
        let (s0, t0) = (s.drop_last(), t.remove(k));
        assert forall|i: int| 0 <= i < rest.len() implies 0 <= #[trigger] rest[i] < n - 1 by {
            let j = if i < k { i } else { i + 1 };
            assert(rest[i] == order[j]);
            assert(order[j] != order[k]);
        }
        assert forall|v: int| 0 <= v < n - 1 implies #[trigger] rest.contains(v) by {
            assert(order.contains(v));
            let j = choose|j: int| 0 <= j < order.len() && order[j] == v;
            let i = if j < k { j } else { j - 1 };
            assert(rest[i] == v);
        }
        assert forall|i: int, j: int|
            0 <= i < rest.len() && 0 <= j < rest.len() && i != j implies rest[i] != rest[j] by {
            let a = if i < k { i } else { i + 1 };
            let b = if j < k { j } else { j + 1 };
            assert(rest[i] == order[a] && rest[j] == order[b]);
        }
        assert forall|i: int| 0 <= i < t0.len() implies #[trigger] t0[i] == s0[rest[i]] by {
            let j = if i < k { i } else { i + 1 };
            assert(t0[i] == t[j]);
            assert(rest[i] == order[j]);
        }
        lemma_sum_reordered(s0, t0, rest);
        lemma_sum_remove(t, k);
        assert(t[k] == s[n - 1]);
    }
}

/// Whether the second layout has the bands of the first in another order.
pub open spec fn reordered<T: Elementary>(
    a: Layout<Real<T>>,
    b: Layout<Real<T>>,
    order: Seq<int>,
) -> bool {
    &&& same_setting(a, b)
    &&& ordering(order, a.bands.len())
    &&& b.bands.len() == a.bands.len()
    &&& forall|i: int| 0 <= i < b.bands.len() ==> #[trigger] b.bands[i] == a.bands[order[i]]
}

/// Whether two states agree, each band having the state of the band that it is
/// in the other order.
pub open spec fn states_reordered<F>(
    a: BandedStores<F>,
    b: BandedStores<F>,
    order: Seq<int>,
) -> bool {
    &&& a.bands.len() == order.len()
    &&& b.bands.len() == order.len()
    &&& forall|i: int| 0 <= i < b.bands.len() ==> #[trigger] b.bands[i] == a.bands[order[i]]
    &&& a.suz == b.suz
    &&& a.slz == b.slz
    &&& a.routing == b.routing
}

/// A step does not depend on the order of the bands.
pub proof fn band_order_does_not_matter<T: Elementary>(
    prm: HbvParams<Real<T>>,
    a: Layout<Real<T>>,
    b: Layout<Real<T>>,
    order: Seq<int>,
    sa: BandedStores<Real<T>>,
    sb: BandedStores<Real<T>>,
    p: Real<T>,
    t: Real<T>,
    pet: Real<T>,
)
    requires
        reordered(a, b, order),
        states_reordered(sa, sb, order),
    ensures
        banded_discharge(prm, a, sa, p, t, pet) == banded_discharge(prm, b, sb, p, t, pet),
        states_reordered(
            banded_next(prm, a, sa, p, t, pet),
            banded_next(prm, b, sb, p, t, pet),
            order,
        ),
{
    let (ta, tb) = (
        shares(prm, a, sa.bands, p, t, pet),
        shares(prm, b, sb.bands, p, t, pet),
    );
    assert forall|i: int| 0 <= i < tb.len() implies #[trigger] tb[i] == ta[order[i]] by {
        assert(b.bands[i] == a.bands[order[i]]);
        assert(sb.bands[i] == sa.bands[order[i]]);
        lemma_same_band(prm, a, order[i], b, i, sb.bands[i], p, t, pet);
    }
    lemma_sum_reordered(ta, tb, order);
    lemma_all_shares(prm, a, sa, p, t, pet);
    lemma_all_shares(prm, b, sb, p, t, pet);
    let (na, nb) = (banded_next(prm, a, sa, p, t, pet), banded_next(prm, b, sb, p, t, pet));
    assert forall|i: int| 0 <= i < nb.bands.len() implies #[trigger] nb.bands[i]
        == na.bands[order[i]] by {
        assert(b.bands[i] == a.bands[order[i]]);
        assert(sb.bands[i] == sa.bands[order[i]]);
        lemma_same_band(prm, a, order[i], b, i, sb.bands[i], p, t, pet);
    }
}

/// Whether the second layout has band `k` of the first as two bands of the same
/// elevation, whose areas add up to its area.
pub open spec fn split<T: Elementary>(a: Layout<Real<T>>, b: Layout<Real<T>>, k: int) -> bool {
    &&& same_setting(a, b)
    &&& 0 <= k < a.bands.len()
    &&& b.bands.len() == a.bands.len() + 1
    &&& forall|i: int| 0 <= i < k ==> #[trigger] b.bands[i] == a.bands[i]
    &&& forall|i: int| k + 1 < i < b.bands.len() ==> #[trigger] b.bands[i] == a.bands[i - 1]
    &&& b.bands[k].elevation == a.bands[k].elevation
    &&& b.bands[k + 1].elevation == a.bands[k].elevation
    &&& b.bands[k].area_fraction.v + b.bands[k + 1].area_fraction.v
        == a.bands[k].area_fraction.v
}

/// Whether two states agree, both halves of band `k` having the state of the
/// whole band.
pub open spec fn states_split<F>(a: BandedStores<F>, b: BandedStores<F>, k: int) -> bool {
    &&& 0 <= k < a.bands.len()
    &&& b.bands.len() == a.bands.len() + 1
    &&& forall|i: int| 0 <= i <= k ==> #[trigger] b.bands[i] == a.bands[i]
    &&& forall|i: int| k < i < b.bands.len() ==> #[trigger] b.bands[i] == a.bands[i - 1]
    &&& a.suz == b.suz
    &&& a.slz == b.slz
    &&& a.routing == b.routing
}

/// A step does not depend on whether a band is counted as one or as two.
pub proof fn splitting_a_band_does_not_matter<T: Elementary>(
    prm: HbvParams<Real<T>>,
    a: Layout<Real<T>>,
    b: Layout<Real<T>>,
    k: int,
    sa: BandedStores<Real<T>>,
    sb: BandedStores<Real<T>>,
    p: Real<T>,
    t: Real<T>,
    pet: Real<T>,
)
    requires
        split(a, b, k),
        sa.bands.len() == a.bands.len(),
        states_split(sa, sb, k),
    ensures
        banded_discharge(prm, a, sa, p, t, pet) == banded_discharge(prm, b, sb, p, t, pet),
        states_split(
            banded_next(prm, a, sa, p, t, pet),
            banded_next(prm, b, sb, p, t, pet),
            k,
        ),
{
    let (ta, tb) = (
        shares(prm, a, sa.bands, p, t, pet),
        shares(prm, b, sb.bands, p, t, pet),
    );
    let (na, nb) = (banded_next(prm, a, sa, p, t, pet), banded_next(prm, b, sb, p, t, pet));
    assert forall|i: int| 0 <= i < tb.len() implies #[trigger] tb[i]
        == b.bands[i].area_fraction.times({
        let j = if i <= k { i } else { i - 1 };
        band_recharge(prm, a, j, sa.bands[j], p, t, pet)
    }) by {
        let j = if i <= k { i } else { i - 1 };
        assert(sb.bands[i] == sa.bands[j]);
        assert(b.bands[i].elevation == a.bands[j].elevation);
        lemma_same_band(prm, a, j, b, i, sb.bands[i], p, t, pet);
    }
    assert forall|i: int| 0 <= i < nb.bands.len() implies #[trigger] nb.bands[i] == {
        let j = if i <= k { i } else { i - 1 };
        na.bands[j]
    } by {
        let j = if i <= k { i } else { i - 1 };
        assert(sb.bands[i] == sa.bands[j]);
        assert(b.bands[i].elevation == a.bands[j].elevation);
        lemma_same_band(prm, a, j, b, i, sb.bands[i], p, t, pet);
    }
    let r = band_recharge(prm, a, k, sa.bands[k], p, t, pet).v;
    let (a1, a2) = (b.bands[k].area_fraction.v, b.bands[k + 1].area_fraction.v);
    assert(tb[k].v == a1 * r);
    assert(tb[k + 1].v == a2 * r);
    lemma_distribute(a1, a2, r);
    lemma_sum_remove(ta, k);
    lemma_sum_remove(tb, k + 1);
    lemma_sum_remove(tb.remove(k + 1), k);
    let rest = tb.remove(k + 1).remove(k);
    assert forall|i: int| 0 <= i < rest.len() implies #[trigger] rest[i] == ta.remove(k)[i] by {
        if i < k {
            assert(rest[i] == tb[i]);
        } else {
            assert(rest[i] == tb[i + 2]);
            assert(b.bands[i + 2] == a.bands[i + 1]);
        }
    }
    assert(rest =~= ta.remove(k));
    lemma_all_shares(prm, a, sa, p, t, pet);
    lemma_all_shares(prm, b, sb, p, t, pet);
}

/// A run from the default state does not depend on the order of the bands.
pub proof fn runs_do_not_depend_on_the_band_order<T: Elementary>(
    prm: HbvParams<Real<T>>,
    a: Layout<Real<T>>,
    b: Layout<Real<T>>,
    order: Seq<int>,
    precip: Seq<Real<T>>,
    pet: Seq<Real<T>>,
    temp: Seq<Real<T>>,
    n: nat,
)
    requires
        reordered(a, b, order),
        n <= precip.len(),
    ensures
        states_reordered(
            banded_after(prm, a, banded_start(prm, a), precip, pet, temp, n),
            banded_after(prm, b, banded_start(prm, b), precip, pet, temp, n),
            order,
        ),
        forall|i: int|
            0 <= i < n ==> #[trigger] banded_series(
                prm,
                a,
                banded_start(prm, a),
                precip,
                pet,
                temp,
            )[i] == banded_series(prm, b, banded_start(prm, b), precip, pet, temp)[i],
    decreases n,
{
    if n > 0 {
        let i = n - 1;
        runs_do_not_depend_on_the_band_order(prm, a, b, order, precip, pet, temp, i as nat);
        band_order_does_not_matter(
            prm,
            a,
            b,
            order,
            banded_after(prm, a, banded_start(prm, a), precip, pet, temp, i as nat),
            banded_after(prm, b, banded_start(prm, b), precip, pet, temp, i as nat),
            precip[i],
            temp[i],
            pet[i],
        );
    }
}

/// A run from the default state does not depend on whether a band is counted as
/// one or as two.
pub proof fn runs_do_not_depend_on_splitting_a_band<T: Elementary>(
    prm: HbvParams<Real<T>>,
    a: Layout<Real<T>>,
    b: Layout<Real<T>>,
    k: int,
    precip: Seq<Real<T>>,
    pet: Seq<Real<T>>,
    temp: Seq<Real<T>>,
    n: nat,
)
    requires
        split(a, b, k),
        n <= precip.len(),
    ensures
        states_split(
            banded_after(prm, a, banded_start(prm, a), precip, pet, temp, n),
            banded_after(prm, b, banded_start(prm, b), precip, pet, temp, n),
            k,
        ),
        banded_after(prm, a, banded_start(prm, a), precip, pet, temp, n).bands.len()
            == a.bands.len(),
        forall|i: int|
            0 <= i < n ==> #[trigger] banded_series(
                prm,
                a,
                banded_start(prm, a),
                precip,
                pet,
                temp,
            )[i] == banded_series(prm, b, banded_start(prm, b), precip, pet, temp)[i],
    decreases n,
{
    if n > 0 {
        let i = n - 1;
        runs_do_not_depend_on_splitting_a_band(prm, a, b, k, precip, pet, temp, i as nat);
        splitting_a_band_does_not_matter(
            prm,
            a,
            b,
            k,
            banded_after(prm, a, banded_start(prm, a), precip, pet, temp, i as nat),
            banded_after(prm, b, banded_start(prm, b), precip, pet, temp, i as nat),
            precip[i],
            temp[i],
            pet[i],
        );
    }
}

} // verus!
