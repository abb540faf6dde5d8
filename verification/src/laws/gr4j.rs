//! Laws of the GR4J model: stores stay within their capacities, water is
//! conserved.
use vstd::prelude::*;
use crate::gr4j::Gr4jParams;

verus! {

use crate::exact::{lawful, lawful_pow, Elementary, Real};
use crate::gr4j::{
    direct_outflow, effective, exchange, fast_charged, fast_share, gr4j_after, gr4j_discharge,
    gr4j_fault, gr4j_next, gr4j_series, gr4j_start, ordinates1, ordinates2, production,
    routing_filled, slow_charged, slow_share, Gr4jStores,
};
use crate::laws::algebra::{lemma_half, lemma_product_sign, lemma_quotient, lemma_share, lemma_unit};
use crate::laws::production::{leak_fits, production_stays_sound};
use crate::laws::sums::{lemma_sum_advanced, lemma_sum_spread, non_negative};
use crate::laws::unit_hydrograph::{
    countable, fast_ordinates_sum_to_one, lemma_buffer_len, slow_ordinates_sum_to_one,
};
use crate::number::{sum, two, zero, Arith};
use crate::uh::{advanced, buffer_len, spread};

/// Accepted parameters with unit hydrographs whose steps can be counted.
pub open spec fn gr4j_parameters<T: Elementary>(prm: Gr4jParams<Real<T>>) -> bool {
    gr4j_fault(prm) is None && countable(prm.x4) && countable(two::<Real<T>>().times(prm.x4))
}

/// Whether the unit hydrographs of a state have the length of their ordinates.
pub open spec fn gr4j_fitting<T: Elementary>(
    prm: Gr4jParams<Real<T>>,
    st: Gr4jStores<Real<T>>,
) -> bool {
    &&& st.uh1.len() == buffer_len(prm.x4)
    &&& st.uh2.len() == buffer_len(two::<Real<T>>().times(prm.x4))
}

/// Whether each store lies between empty and full and nothing negative is in
/// transit.
pub open spec fn gr4j_sound<T: Elementary>(
    prm: Gr4jParams<Real<T>>,
    st: Gr4jStores<Real<T>>,
) -> bool {
    &&& gr4j_fitting(prm, st)
    &&& 0real <= st.s.v <= prm.x1.v
    &&& 0real <= st.r.v <= prm.x3.v
    &&& non_negative(st.uh1)
    &&& non_negative(st.uh2)
}

/// Water in the stores and in transit.
pub open spec fn gr4j_storage<T: Elementary>(st: Gr4jStores<Real<T>>) -> real {
    st.s.v + st.r.v + sum(st.uh1).v + sum(st.uh2).v
}

/// Evapotranspiration of a step: the demand as far as rainfall meets it, else
/// the rainfall and what the production store gives.
pub open spec fn gr4j_aet<T: Elementary>(
    prm: Gr4jParams<Real<T>>,
    st: Gr4jStores<Real<T>>,
    p: Real<T>,
    pet: Real<T>,
) -> real {
    if pet.v <= p.v {
        pet.v
    } else {
        p.v + production(prm.x1, st.s, p, pet).es.v
    }
}

/// Water gained through groundwater exchange in a step, negative where it is
/// lost.
pub open spec fn gr4j_exchanged<T: Elementary>(
    prm: Gr4jParams<Real<T>>,
    st: Gr4jStores<Real<T>>,
    p: Real<T>,
    pet: Real<T>,
) -> real {
    (routing_filled(prm, st, p, pet).v - st.r.v - slow_charged(prm, st, p, pet)[0].v) + (
    direct_outflow(prm, st, p, pet).v - fast_charged(prm, st, p, pet)[0].v)
}

/// Spreading a pulse over a unit hydrograph whose ordinates are non-negative
/// and sum to one.
proof fn lemma_buffer<T: Elementary>(weights: Seq<Real<T>>, buffer: Seq<Real<T>>, pulse: Real<T>)
    requires
        weights.len() == buffer.len(),
        buffer.len() > 0,
        sum(weights).v == 1real,
        non_negative(weights),
    ensures
        ({
            let charged = spread(weights, buffer, pulse);
            &&& charged.len() == buffer.len()
            &&& advanced(charged).len() == buffer.len()
            &&& sum(advanced(charged)).v + charged[0].v == sum(buffer).v + pulse.v
            &&& non_negative(buffer) && pulse.v >= 0real ==> {
                non_negative(advanced(charged)) && charged[0].v >= 0real
            }
        }),
{
    let charged = spread(weights, buffer, pulse);
    lemma_sum_spread(weights, buffer, pulse);
    lemma_unit(pulse.v);
    lemma_sum_advanced(charged);
    if non_negative(buffer) && pulse.v >= 0real {
        assert forall|i: int| 0 <= i < charged.len() implies (#[trigger] charged[i]).v
            >= 0real by {
            assert(buffer[i].v >= 0real);
            assert(weights[i].v >= 0real);
            lemma_product_sign(weights[i].v, pulse.v);
        }
        let next = advanced(charged);
        assert forall|i: int| 0 <= i < next.len() implies (#[trigger] next[i]).v >= 0real by {
            if i < next.len() - 1 {
                assert(next[i] == charged[i + 1]);
            }
        }
    }
}

/// Both unit hydrographs of a step.
proof fn lemma_branches<T: Elementary>(
    prm: Gr4jParams<Real<T>>,
    st: Gr4jStores<Real<T>>,
    p: Real<T>,
    pet: Real<T>,
)
    requires
        lawful_pow::<T>(),
        gr4j_parameters(prm),
        gr4j_fitting(prm, st),
    ensures
        ({
            let prod = production(prm.x1, st.s, p, pet);
            let slow = slow_charged(prm, st, p, pet);
            let fast = fast_charged(prm, st, p, pet);
            &&& gr4j_fitting(prm, gr4j_next(prm, st, p, pet))
            &&& slow.len() > 0 && fast.len() > 0
            &&& sum(advanced(slow)).v + slow[0].v == sum(st.uh1).v + slow_share(prod).v
            &&& sum(advanced(fast)).v + fast[0].v == sum(st.uh2).v + fast_share(prod).v
            &&& non_negative(st.uh1) && slow_share(prod).v >= 0real ==> {
                non_negative(advanced(slow)) && slow[0].v >= 0real
            }
            &&& non_negative(st.uh2) && fast_share(prod).v >= 0real ==> {
                non_negative(advanced(fast)) && fast[0].v >= 0real
            }
        }),
{
    let prod = production(prm.x1, st.s, p, pet);
    lemma_half(1real);
    slow_ordinates_sum_to_one(prm.x4);
    fast_ordinates_sum_to_one(prm.x4);
    lemma_buffer_len(prm.x4);
    assert(two::<Real<T>>().times(prm.x4).v == 2real * prm.x4.v);
    lemma_buffer_len(two::<Real<T>>().times(prm.x4));
    lemma_buffer(ordinates1(prm.x4), st.uh1, slow_share(prod));
    lemma_buffer(ordinates2(prm.x4), st.uh2, fast_share(prod));
}

/// Stores stay between empty and full, whatever the groundwater exchange, and
/// discharge is not negative. Evapotranspiration lies between zero and its
/// demand.
pub proof fn gr4j_step_stays_sound<T: Elementary>(
    prm: Gr4jParams<Real<T>>,
    st: Gr4jStores<Real<T>>,
    p: Real<T>,
    pet: Real<T>,
)
    requires
        lawful::<T>(),
        gr4j_parameters(prm),
        gr4j_sound(prm, st),
        p.v >= 0real,
        pet.v >= 0real,
    ensures
        gr4j_sound(prm, gr4j_next(prm, st, p, pet)),
        gr4j_discharge(prm, st, p, pet).v >= 0real,
        0real <= gr4j_aet(prm, st, p, pet) <= pet.v,
{
    let prod = production(prm.x1, st.s, p, pet);
    production_stays_sound(prm.x1, st.s, p, pet);
    lemma_quotient(9real, 10real);
    lemma_share(9real / 10real, effective(prod).v);
    assert(slow_share(prod).v >= 0real);
    assert(fast_share(prod).v >= 0real);
    lemma_branches(prm, st, p, pet);
    let filled = routing_filled(prm, st, p, pet);
    assert(filled.v >= 0real);
    lemma_quotient(filled.v, prm.x3.v);
    leak_fits(filled, filled.over(prm.x3), prm.x3.v);
    assert(direct_outflow(prm, st, p, pet).v >= 0real);
}

/// The water balance of a step closes: storage, discharge and
/// evapotranspiration after it account for the storage before it, the
/// precipitation and the groundwater exchange.
pub proof fn gr4j_step_conserves_water<T: Elementary>(
    prm: Gr4jParams<Real<T>>,
    st: Gr4jStores<Real<T>>,
    p: Real<T>,
    pet: Real<T>,
)
    requires
        lawful_pow::<T>(),
        gr4j_parameters(prm),
        gr4j_fitting(prm, st),
    ensures
        gr4j_storage(gr4j_next(prm, st, p, pet)) + gr4j_discharge(prm, st, p, pet).v + gr4j_aet(
            prm,
            st,
            p,
            pet,
        ) == gr4j_storage(st) + p.v + gr4j_exchanged(prm, st, p, pet),
        gr4j_fitting(prm, gr4j_next(prm, st, p, pet)),
{
    lemma_branches(prm, st, p, pet);
}

/// With `x2 = 0` there is no groundwater exchange.
pub proof fn no_exchange_without_coefficient<T: Elementary>(
    prm: Gr4jParams<Real<T>>,
    st: Gr4jStores<Real<T>>,
    p: Real<T>,
    pet: Real<T>,
)
    requires
        lawful::<T>(),
        gr4j_parameters(prm),
        gr4j_sound(prm, st),
        p.v >= 0real,
        pet.v >= 0real,
        prm.x2.v == 0real,
    ensures
        gr4j_exchanged(prm, st, p, pet) == 0real,
{
    let prod = production(prm.x1, st.s, p, pet);
    production_stays_sound(prm.x1, st.s, p, pet);
    lemma_quotient(9real, 10real);
    lemma_share(9real / 10real, effective(prod).v);
    lemma_branches(prm, st, p, pet);
    lemma_unit(st.r.over(prm.x3).raised(Real::<T>::literal(7, 2)).v);
    assert(exchange(prm, st.r).v == 0real);
}

/// As long as exchange empties no store, both branches gain the same amount,
/// `x2 (R/x3)^(7/2)`.
pub proof fn exchange_is_shared_by_both_branches<T: Elementary>(
    prm: Gr4jParams<Real<T>>,
    st: Gr4jStores<Real<T>>,
    p: Real<T>,
    pet: Real<T>,
)
    requires
        st.r.v + slow_charged(prm, st, p, pet)[0].v + exchange(prm, st.r).v >= 0real,
        fast_charged(prm, st, p, pet)[0].v + exchange(prm, st.r).v >= 0real,
    ensures
        gr4j_exchanged(prm, st, p, pet) == 2real * exchange(prm, st.r).v,
{
}

/// The default initial state is sound.
pub proof fn gr4j_start_is_sound<T: Elementary>(prm: Gr4jParams<Real<T>>)
    requires
        gr4j_parameters(prm),
    ensures
        gr4j_sound(prm, gr4j_start(prm)),
{
    lemma_quotient(3real, 10real);
    lemma_share(3real / 10real, prm.x1.v);
    lemma_half(prm.x3.v);
}

/// Over a whole run from a sound state every state stays sound and no discharge
/// is negative.
pub proof fn gr4j_run_stays_sound<T: Elementary>(
    prm: Gr4jParams<Real<T>>,
    st: Gr4jStores<Real<T>>,
    precip: Seq<Real<T>>,
    pet: Seq<Real<T>>,
    n: nat,
)
    requires
        lawful::<T>(),
        gr4j_parameters(prm),
        gr4j_sound(prm, st),
        n <= precip.len(),
        precip.len() == pet.len(),
        non_negative(precip),
        non_negative(pet),
    ensures
        gr4j_sound(prm, gr4j_after(prm, st, precip, pet, n)),
        forall|i: int|
            0 <= i < n ==> (#[trigger] gr4j_series(prm, st, precip, pet)[i]).v >= 0real,
    decreases n,
{
    if n > 0 {
        let i = (n - 1) as nat;
        gr4j_run_stays_sound(prm, st, precip, pet, i);
        assert(precip[i as int].v >= 0real);
        assert(pet[i as int].v >= 0real);
        gr4j_step_stays_sound(
            prm,
            gr4j_after(prm, st, precip, pet, i),
            precip[i as int],
            pet[i as int],
        );
    }
}

/// Evapotranspiration of the first `n` steps.
pub open spec fn gr4j_evaporated<T: Elementary>(
    prm: Gr4jParams<Real<T>>,
    st: Gr4jStores<Real<T>>,
    precip: Seq<Real<T>>,
    pet: Seq<Real<T>>,
    n: nat,
) -> real
    decreases n,
{
    if n == 0 {
        0real
    } else {
        gr4j_evaporated(prm, st, precip, pet, (n - 1) as nat) + gr4j_aet(
            prm,
            gr4j_after(prm, st, precip, pet, (n - 1) as nat),
            precip[n - 1],
            pet[n - 1],
        )
    }
}

/// Without groundwater exchange the water balance of a run closes: final
/// storage, discharge and evapotranspiration account for the initial storage
/// and the precipitation.
pub proof fn gr4j_run_conserves_water<T: Elementary>(
    prm: Gr4jParams<Real<T>>,
    st: Gr4jStores<Real<T>>,
    precip: Seq<Real<T>>,
    pet: Seq<Real<T>>,
    n: nat,
)
    requires
        lawful::<T>(),
        gr4j_parameters(prm),
        gr4j_sound(prm, st),
        prm.x2.v == 0real,
        n <= precip.len(),
        precip.len() == pet.len(),
        non_negative(precip),
        non_negative(pet),
    ensures
        gr4j_storage(gr4j_after(prm, st, precip, pet, n)) + sum(
            gr4j_series(prm, st, precip, pet).take(n as int),
        ).v + gr4j_evaporated(prm, st, precip, pet, n) == gr4j_storage(st) + sum(
            precip.take(n as int),
        ).v,
    decreases n,
{
    let q = gr4j_series(prm, st, precip, pet);
    if n > 0 {
        let i = (n - 1) as nat;
        let before = gr4j_after(prm, st, precip, pet, i);
        gr4j_run_conserves_water(prm, st, precip, pet, i);
        gr4j_run_stays_sound(prm, st, precip, pet, i);
        assert(precip[i as int].v >= 0real);
        assert(pet[i as int].v >= 0real);
        gr4j_step_conserves_water(prm, before, precip[i as int], pet[i as int]);
        no_exchange_without_coefficient(prm, before, precip[i as int], pet[i as int]);
        assert(q.take(n as int).drop_last() =~= q.take(i as int));
        assert(precip.take(n as int).drop_last() =~= precip.take(i as int));
    }
}

/// Only the net input counts: a step is the same with precipitation and demand
/// replaced by what the one exceeds the other by.
pub proof fn only_the_net_input_counts<T: Elementary>(
    prm: Gr4jParams<Real<T>>,
    st: Gr4jStores<Real<T>>,
    p: Real<T>,
    pet: Real<T>,
)
    ensures
        pet.v <= p.v ==> {
            &&& gr4j_next(prm, st, p, pet) == gr4j_next(prm, st, p.minus(pet), zero())
            &&& gr4j_discharge(prm, st, p, pet) == gr4j_discharge(prm, st, p.minus(pet), zero())
        },
        p.v < pet.v ==> {
            &&& gr4j_next(prm, st, p, pet) == gr4j_next(prm, st, zero(), pet.minus(p))
            &&& gr4j_discharge(prm, st, p, pet) == gr4j_discharge(prm, st, zero(), pet.minus(p))
        },
{
    let prod = production(prm.x1, st.s, p, pet);
    if pet.v <= p.v {
        assert(prod == production(prm.x1, st.s, p.minus(pet), zero()));
    } else {
        assert(prod == production(prm.x1, st.s, zero(), pet.minus(p)));
    }
}

} // verus!
