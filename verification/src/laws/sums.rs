//! Sums of series of reals.
use vstd::prelude::*;

verus! {

use crate::exact::{Elementary, Real};
use crate::laws::algebra::{lemma_distribute, lemma_unit};
use crate::number::{sum, Arith};
use crate::uh::{advanced, spread};

/// Whether no value of a series is negative.
pub open spec fn non_negative<T: Elementary>(s: Seq<Real<T>>) -> bool {
    forall|i: int| 0 <= i < s.len() ==> (#[trigger] s[i]).v >= 0real
}

/// The sum of a non-negative series is not negative.
pub(crate) proof fn lemma_sum_sign<T: Elementary>(s: Seq<Real<T>>)
    requires
        non_negative(s),
    ensures
        sum(s).v >= 0real,
    decreases s.len(),
{
    if s.len() > 0 {
        let less = s.drop_last();
        assert forall|i: int| 0 <= i < less.len() implies (#[trigger] less[i]).v >= 0real by {
            assert(less[i] == s[i]);
        }
        lemma_sum_sign(less);
        assert(s[s.len() - 1].v >= 0real);
    }
}

/// Differences of consecutive values add up to the difference of the ends.
pub(crate) proof fn lemma_sum_telescopes<T: Elementary>(s: Seq<Real<T>>, g: spec_fn(int) -> real)
    requires
        forall|i: int| 0 <= i < s.len() ==> (#[trigger] s[i]).v == g(i + 1) - g(i),
    ensures
        sum(s).v == g(s.len() as int) - g(0),
    decreases s.len(),
{
    if s.len() > 0 {
        let less = s.drop_last();
        assert forall|i: int| 0 <= i < less.len() implies (#[trigger] less[i]).v == g(i + 1) - g(
            i,
        ) by {
            assert(less[i] == s[i]);
        }
        lemma_sum_telescopes(less, g);
        assert(s[s.len() - 1].v == g(s.len() as int) - g(s.len() - 1));
    }
}

/// A sum counted from the front.
pub(crate) proof fn lemma_sum_front<T: Elementary>(s: Seq<Real<T>>)
    requires
        s.len() > 0,
    ensures
        sum(s).v == s[0].v + sum(s.drop_first()).v,
    decreases s.len(),
{
    if s.len() == 1 {
        assert(s.drop_last() =~= Seq::<Real<T>>::empty());
        assert(s.drop_first() =~= Seq::<Real<T>>::empty());
    } else {
        lemma_sum_front(s.drop_last());
        assert(s.drop_last().drop_first() =~= s.drop_first().drop_last());
        assert(s.drop_first().last() == s.last());
    }
}

/// Advancing a buffer takes its front out of the sum.
pub(crate) proof fn lemma_sum_advanced<T: Elementary>(buffer: Seq<Real<T>>)
    requires
        buffer.len() > 0,
    ensures
        sum(advanced(buffer)).v == sum(buffer).v - buffer[0].v,
{
    lemma_sum_front(buffer);
    assert(advanced(buffer).drop_last() =~= buffer.drop_first());
}

/// Spreading a pulse adds the pulse as often as the weights count.
pub(crate) proof fn lemma_sum_spread<T: Elementary>(
    weights: Seq<Real<T>>,
    buffer: Seq<Real<T>>,
    pulse: Real<T>,
)
    requires
        weights.len() == buffer.len(),
    ensures
        sum(spread(weights, buffer, pulse)).v == sum(buffer).v + sum(weights).v * pulse.v,
    decreases buffer.len(),
{
    if buffer.len() > 0 {
        let (w, b) = (weights.drop_last(), buffer.drop_last());
        lemma_sum_spread(w, b, pulse);
        assert(spread(weights, buffer, pulse).drop_last() =~= spread(w, b, pulse));
        lemma_distribute(sum(w).v, weights.last().v, pulse.v);
    } else {
        lemma_unit(pulse.v);
        assert(spread(weights, buffer, pulse) =~= Seq::<Real<T>>::empty());
    }
}

/// A series of zeros adds up to zero.
pub(crate) proof fn lemma_sum_zeros<T: Elementary>(s: Seq<Real<T>>)
    requires
        forall|i: int| 0 <= i < s.len() ==> (#[trigger] s[i]).v == 0real,
    ensures
        sum(s).v == 0real,
    decreases s.len(),
{
    if s.len() > 0 {
        let less = s.drop_last();
        assert forall|i: int| 0 <= i < less.len() implies (#[trigger] less[i]).v == 0real by {
            assert(less[i] == s[i]);
        }
        lemma_sum_zeros(less);
        assert(s[s.len() - 1].v == 0real);
    }
}

/// A common factor can be taken out of a sum.
pub(crate) proof fn lemma_sum_scaled<T: Elementary>(s: Seq<Real<T>>, t: Seq<Real<T>>, c: real)
    requires
        s.len() == t.len(),
        forall|i: int| 0 <= i < s.len() ==> (#[trigger] t[i]).v == c * s[i].v,
    ensures
        sum(t).v == c * sum(s).v,
    decreases s.len(),
{
    if s.len() > 0 {
        let (s0, t0) = (s.drop_last(), t.drop_last());
        assert forall|i: int| 0 <= i < s0.len() implies (#[trigger] t0[i]).v == c * s0[i].v by {
            assert(t0[i] == t[i]);
        }
        lemma_sum_scaled(s0, t0, c);
        assert(t[s.len() - 1].v == c * s.last().v);
        lemma_distribute(sum(s0).v, s.last().v, c);
    } else {
        lemma_unit(c);
    }
}

/// Series that agree in value have the same sum.
pub(crate) proof fn lemma_sum_same<T: Elementary>(s: Seq<Real<T>>, t: Seq<Real<T>>)
    requires
        s.len() == t.len(),
        forall|i: int| 0 <= i < s.len() ==> (#[trigger] t[i]).v == s[i].v,
    ensures
        sum(t).v == sum(s).v,
    decreases s.len(),
{
    if s.len() > 0 {
        let (s0, t0) = (s.drop_last(), t.drop_last());
        assert forall|i: int| 0 <= i < s0.len() implies (#[trigger] t0[i]).v == s0[i].v by {
            assert(t0[i] == t[i]);
        }
        lemma_sum_same(s0, t0);
        assert(t[s.len() - 1].v == s.last().v);
    }
}

/// Equal values add up to as many times their value.
pub(crate) proof fn lemma_sum_equal<T: Elementary>(s: Seq<Real<T>>, share: real)
    requires
        forall|i: int| 0 <= i < s.len() ==> (#[trigger] s[i]).v == share,
    ensures
        sum(s).v == s.len() as real * share,
    decreases s.len(),
{
    lemma_unit(share);
    if s.len() > 0 {
        let less = s.drop_last();
        assert forall|i: int| 0 <= i < less.len() implies (#[trigger] less[i]).v == share by {
            assert(less[i] == s[i]);
        }
        lemma_sum_equal(less, share);
        assert(s[s.len() - 1].v == share);
        lemma_distribute((s.len() - 1) as real, 1real, share);
    }
}

/// Moving every value by `k` moves the sum by as many times `k`.
pub(crate) proof fn lemma_sum_shifted<T: Elementary>(s: Seq<Real<T>>, t: Seq<Real<T>>, k: real)
    requires
        s.len() == t.len(),
        forall|i: int| 0 <= i < s.len() ==> (#[trigger] t[i]).v == s[i].v + k,
    ensures
        sum(t).v == sum(s).v + s.len() as real * k,
    decreases s.len(),
{
    lemma_unit(k);
    if s.len() > 0 {
        let (s0, t0) = (s.drop_last(), t.drop_last());
        assert forall|i: int| 0 <= i < s0.len() implies (#[trigger] t0[i]).v == s0[i].v + k by {
            assert(t0[i] == t[i]);
        }
        lemma_sum_shifted(s0, t0, k);
        assert(t[s.len() - 1].v == s.last().v + k);
        lemma_distribute((s.len() - 1) as real, 1real, k);
    }
}

/// A non-negative series that adds up to zero is zero throughout.
pub(crate) proof fn lemma_sum_zero_terms<T: Elementary>(s: Seq<Real<T>>, i: int)
    requires
        non_negative(s),
        sum(s).v == 0real,
        0 <= i < s.len(),
    ensures
        s[i].v == 0real,
    decreases s.len(),
{
    let less = s.drop_last();
    assert forall|j: int| 0 <= j < less.len() implies (#[trigger] less[j]).v >= 0real by {
        assert(less[j] == s[j]);
    }
    lemma_sum_sign(less);
    assert(s[s.len() - 1].v >= 0real);
    if i < s.len() - 1 {
        lemma_sum_zero_terms(less, i);
    }
}

/// Any value can be taken out of a sum.
pub(crate) proof fn lemma_sum_remove<T: Elementary>(s: Seq<Real<T>>, i: int)
    requires
        0 <= i < s.len(),
    ensures
        sum(s).v == sum(s.remove(i)).v + s[i].v,
    decreases s.len(),
{
    if i == s.len() - 1 {
        assert(s.remove(i) =~= s.drop_last());
    } else {
        lemma_sum_remove(s.drop_last(), i);
        assert(s.remove(i).drop_last() =~= s.drop_last().remove(i));
        assert(s.remove(i).last() == s.last());
    }
}

} // verus!
