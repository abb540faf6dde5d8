//! A run can be interrupted and taken up again.
use vstd::prelude::*;
use crate::gr4j::Gr4jParams;
use crate::hbv::HbvParams;

verus! {

use crate::bands::{banded_after, banded_series, BandedStores, Layout};
use crate::gr4j::{gr4j_after, gr4j_series, Gr4jStores};
use crate::hbv::{hbv_after, hbv_series, HbvStores};
use crate::number::Arith;

/// The first `m` steps of a temperature series, where there is one.
pub open spec fn temp_take<F>(temp: Option<Seq<F>>, m: nat) -> Option<Seq<F>> {
    match temp {
        Some(t) => Some(t.take(m as int)),
        None => None,
    }
}

/// A temperature series without its first `m` steps, where there is one.
pub open spec fn temp_skip<F>(temp: Option<Seq<F>>, m: nat) -> Option<Seq<F>> {
    match temp {
        Some(t) => Some(t.skip(m as int)),
        None => None,
    }
}

/// The state after `n` steps depends on the first steps alone.
proof fn lemma_gr4j_prefix<F: Arith>(
    prm: Gr4jParams<F>,
    st: Gr4jStores<F>,
    precip: Seq<F>,
    pet: Seq<F>,
    m: nat,
    n: nat,
)
    requires
        n <= m <= precip.len(),
        precip.len() == pet.len(),
    ensures
        gr4j_after(prm, st, precip, pet, n) == gr4j_after(
            prm, st,
            precip.take(m as int),
            pet.take(m as int),
            n,
        ),
    decreases n,
{
    if n > 0 {
        lemma_gr4j_prefix(prm, st, precip, pet, m, (n - 1) as nat);
    }
}

/// The state after `m + n` steps is that after `n` more steps from the state
/// after `m`.
proof fn lemma_gr4j_suffix<F: Arith>(
    prm: Gr4jParams<F>,
    st: Gr4jStores<F>,
    precip: Seq<F>,
    pet: Seq<F>,
    m: nat,
    n: nat,
)
    requires
        m + n <= precip.len(),
        precip.len() == pet.len(),
    ensures
        gr4j_after(prm, st, precip, pet, m + n) == gr4j_after(
            prm, gr4j_after(prm, st, precip, pet, m),
            precip.skip(m as int),
            pet.skip(m as int),
            n,
        ),
    decreases n,
{
    if n > 0 {
        lemma_gr4j_suffix(prm, st, precip, pet, m, (n - 1) as nat);
    }
}

/// GR4J run in two parts, the second from the state that the first left,
/// gives the discharge and the final state of one continuous run.
pub proof fn gr4j_run_can_be_split<F: Arith>(
    prm: Gr4jParams<F>,
    st: Gr4jStores<F>,
    precip: Seq<F>,
    pet: Seq<F>,
    m: nat,
)
    requires
        m <= precip.len(),
        precip.len() == pet.len(),
    ensures
        ({
            let (p1, e1) = (precip.take(m as int), pet.take(m as int));
            let (p2, e2) = (precip.skip(m as int), pet.skip(m as int));
            let between = gr4j_after(prm, st, p1, e1, m);
            &&& gr4j_series(prm, st, precip, pet) == gr4j_series(prm, st, p1, e1) + gr4j_series(
                prm, between,
                p2,
                e2,
            )
            &&& gr4j_after(prm, st, precip, pet, precip.len()) == gr4j_after(
                prm, between,
                p2,
                e2,
                p2.len(),
            )
        }),
{
    let (p1, e1) = (precip.take(m as int), pet.take(m as int));
    let (p2, e2) = (precip.skip(m as int), pet.skip(m as int));
    let between = gr4j_after(prm, st, p1, e1, m);
    let whole = gr4j_series(prm, st, precip, pet);
    let first = gr4j_series(prm, st, p1, e1);
    let second = gr4j_series(prm, between, p2, e2);
    lemma_gr4j_prefix(prm, st, precip, pet, m, m);
    lemma_gr4j_suffix(prm, st, precip, pet, m, (precip.len() - m) as nat);
    assert forall|i: int| 0 <= i < whole.len() implies #[trigger] whole[i] == (first
        + second)[i] by {
        if i < m {
            lemma_gr4j_prefix(prm, st, precip, pet, m, i as nat);
        } else {
            lemma_gr4j_suffix(prm, st, precip, pet, m, (i - m) as nat);
        }
    }
    assert(whole =~= first + second);
}

/// The state after `n` steps depends on the first steps alone.
proof fn lemma_hbv_prefix<F: Arith>(
    prm: HbvParams<F>,
    st: HbvStores<F>,
    precip: Seq<F>,
    pet: Seq<F>,
    temp: Option<Seq<F>>,
    m: nat,
    n: nat,
)
    requires
        n <= m <= precip.len(),
        precip.len() == pet.len(),
        temp is Some ==> temp->0.len() == precip.len(),
    ensures
        hbv_after(prm, st, precip, pet, temp, n) == hbv_after(
            prm, st,
            precip.take(m as int),
            pet.take(m as int),
            temp_take(temp, m),
            n,
        ),
    decreases n,
{
    if n > 0 {
        lemma_hbv_prefix(prm, st, precip, pet, temp, m, (n - 1) as nat);
    }
}

/// The state after `m + n` steps is that after `n` more steps from the state
/// after `m`.
proof fn lemma_hbv_suffix<F: Arith>(
    prm: HbvParams<F>,
    st: HbvStores<F>,
    precip: Seq<F>,
    pet: Seq<F>,
    temp: Option<Seq<F>>,
    m: nat,
    n: nat,
)
    requires
        m + n <= precip.len(),
        precip.len() == pet.len(),
        temp is Some ==> temp->0.len() == precip.len(),
    ensures
        hbv_after(prm, st, precip, pet, temp, m + n) == hbv_after(
            prm, hbv_after(prm, st, precip, pet, temp, m),
            precip.skip(m as int),
            pet.skip(m as int),
            temp_skip(temp, m),
            n,
        ),
    decreases n,
{
    if n > 0 {
        lemma_hbv_suffix(prm, st, precip, pet, temp, m, (n - 1) as nat);
    }
}

/// HBV run in two parts, the second from the state that the first left,
/// gives the discharge and the final state of one continuous run.
pub proof fn hbv_run_can_be_split<F: Arith>(
    prm: HbvParams<F>,
    st: HbvStores<F>,
    precip: Seq<F>,
    pet: Seq<F>,
    temp: Option<Seq<F>>,
    m: nat,
)
    requires
        m <= precip.len(),
        precip.len() == pet.len(),
        temp is Some ==> temp->0.len() == precip.len(),
    ensures
        ({
            let (p1, e1) = (precip.take(m as int), pet.take(m as int));
            let (p2, e2) = (precip.skip(m as int), pet.skip(m as int));
            let between = hbv_after(prm, st, p1, e1, temp_take(temp, m), m);
            &&& hbv_series(prm, st, precip, pet, temp) == hbv_series(
                prm,
                st,
                p1,
                e1,
                temp_take(temp, m),
            ) + hbv_series(
                prm, between,
                p2,
                e2,
                temp_skip(temp, m),
            )
            &&& hbv_after(prm, st, precip, pet, temp, precip.len()) == hbv_after(
                prm, between,
                p2,
                e2,
                temp_skip(temp, m),
                p2.len(),
            )
        }),
{
    let (p1, e1) = (precip.take(m as int), pet.take(m as int));
    let (p2, e2) = (precip.skip(m as int), pet.skip(m as int));
    let between = hbv_after(prm, st, p1, e1, temp_take(temp, m), m);
    let whole = hbv_series(prm, st, precip, pet, temp);
    let first = hbv_series(prm, st, p1, e1, temp_take(temp, m));
    let second = hbv_series(prm, between, p2, e2, temp_skip(temp, m));
    lemma_hbv_prefix(prm, st, precip, pet, temp, m, m);
    lemma_hbv_suffix(prm, st, precip, pet, temp, m, (precip.len() - m) as nat);
    assert forall|i: int| 0 <= i < whole.len() implies #[trigger] whole[i] == (first
        + second)[i] by {
        if i < m {
            lemma_hbv_prefix(prm, st, precip, pet, temp, m, i as nat);
        } else {
            lemma_hbv_suffix(prm, st, precip, pet, temp, m, (i - m) as nat);
        }
    }
    assert(whole =~= first + second);
}

/// The state after `n` steps depends on the first steps alone.
proof fn lemma_banded_prefix<F: Arith>(
    prm: HbvParams<F>,
    cfg: Layout<F>,
    st: BandedStores<F>,
    precip: Seq<F>,
    pet: Seq<F>,
    temp: Seq<F>,
    m: nat,
    n: nat,
)
    requires
        n <= m <= precip.len(),
        precip.len() == pet.len(),
        temp.len() == precip.len(),
    ensures
        banded_after(prm, cfg, st, precip, pet, temp, n) == banded_after(
            prm, cfg, st,
            precip.take(m as int),
            pet.take(m as int),
            temp.take(m as int),
            n,
        ),
    decreases n,
{
    if n > 0 {
        lemma_banded_prefix(prm, cfg, st, precip, pet, temp, m, (n - 1) as nat);
    }
}

/// The state after `m + n` steps is that after `n` more steps from the state
/// after `m`.
proof fn lemma_banded_suffix<F: Arith>(
    prm: HbvParams<F>,
    cfg: Layout<F>,
    st: BandedStores<F>,
    precip: Seq<F>,
    pet: Seq<F>,
    temp: Seq<F>,
    m: nat,
    n: nat,
)
    requires
        m + n <= precip.len(),
        precip.len() == pet.len(),
        temp.len() == precip.len(),
    ensures
        banded_after(prm, cfg, st, precip, pet, temp, m + n) == banded_after(
            prm, cfg, banded_after(prm, cfg, st, precip, pet, temp, m),
            precip.skip(m as int),
            pet.skip(m as int),
            temp.skip(m as int),
            n,
        ),
    decreases n,
{
    if n > 0 {
        lemma_banded_suffix(prm, cfg, st, precip, pet, temp, m, (n - 1) as nat);
    }
}

/// The banded model run in two parts, the second from the state that the first left,
/// gives the discharge and the final state of one continuous run.
pub proof fn banded_run_can_be_split<F: Arith>(
    prm: HbvParams<F>,
    cfg: Layout<F>,
    st: BandedStores<F>,
    precip: Seq<F>,
    pet: Seq<F>,
    temp: Seq<F>,
    m: nat,
)
    requires
        m <= precip.len(),
        precip.len() == pet.len(),
        temp.len() == precip.len(),
    ensures
        ({
            let (p1, e1) = (precip.take(m as int), pet.take(m as int));
            let (p2, e2) = (precip.skip(m as int), pet.skip(m as int));
            let between = banded_after(prm, cfg, st, p1, e1, temp.take(m as int), m);
            &&& banded_series(prm, cfg, st, precip, pet, temp) == banded_series(
                prm,
                cfg,
                st,
                p1,
                e1,
                temp.take(m as int),
            ) + banded_series(
                prm, cfg, between,
                p2,
                e2,
                temp.skip(m as int),
            )
            &&& banded_after(prm, cfg, st, precip, pet, temp, precip.len()) == banded_after(
                prm, cfg, between,
                p2,
                e2,
                temp.skip(m as int),
                p2.len(),
            )
        }),
{
    let (p1, e1) = (precip.take(m as int), pet.take(m as int));
    let (p2, e2) = (precip.skip(m as int), pet.skip(m as int));
    let between = banded_after(prm, cfg, st, p1, e1, temp.take(m as int), m);
    let whole = banded_series(prm, cfg, st, precip, pet, temp);
    let first = banded_series(prm, cfg, st, p1, e1, temp.take(m as int));
    let second = banded_series(prm, cfg, between, p2, e2, temp.skip(m as int));
    lemma_banded_prefix(prm, cfg, st, precip, pet, temp, m, m);
    lemma_banded_suffix(prm, cfg, st, precip, pet, temp, m, (precip.len() - m) as nat);
    assert forall|i: int| 0 <= i < whole.len() implies #[trigger] whole[i] == (first
        + second)[i] by {
        if i < m {
            lemma_banded_prefix(prm, cfg, st, precip, pet, temp, m, i as nat);
        } else {
            lemma_banded_suffix(prm, cfg, st, precip, pet, temp, m, (i - m) as nat);
        }
    }
    assert(whole =~= first + second);
}

} // verus!
