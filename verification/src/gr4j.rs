//! GR4J daily rainfall-runoff model.
//!
//! Reference: Perrin, C., Michel, C., Andreassian, V. (2003). *Improvement of a
//! parsimonious model for streamflow simulation*. Journal of Hydrology 279,
//! 275-289. The formulation is that of airGR (INRAE), so simulated discharge
//! can be cross-checked numerically against `airGR::RunModel_GR4J`.
use vstd::prelude::*;
use crate::error::{reject, Error};
use crate::number::Scalar;
use crate::uh::{shift_front, spread_pulse, steps_of, zeros};

verus! {

use crate::error::{invalid, mismatch, Fault};
use crate::number::{half, one, two, zero, Arith};
use crate::uh::{advanced, buffer_len, spread};

/// GR4J parameters (Perrin et al. 2003 notation).
#[derive(Debug, Clone, Copy, PartialEq)]
pub struct Gr4jParams<F> {
    /// `x1`: production store capacity (mm), > 0.
    pub x1: F,
    /// `x2`: groundwater exchange coefficient (mm/day).
    pub x2: F,
    /// `x3`: routing store capacity (mm), > 0.
    pub x3: F,
    /// `x4`: unit hydrograph time base (days), >= 0.5.
    pub x4: F,
}

/// Mutable model state carried between time steps.
#[derive(Debug, Clone)]
pub struct Gr4jState<F> {
    /// Production store level (mm), in `[0, x1]`.
    pub s: F,
    /// Routing store level (mm), in `[0, x3]`.
    pub r: F,
    /// Water in the slow unit hydrograph, by days to arrival (mm).
    pub uh1: Vec<F>,
    /// Water in the fast unit hydrograph, by days to arrival (mm).
    pub uh2: Vec<F>,
}

/// Contents of a [`Gr4jState`].
#[verifier::ext_equal]
pub struct Gr4jStores<F> {
    /// Production store level.
    pub s: F,
    /// Routing store level.
    pub r: F,
    /// Slow unit hydrograph.
    pub uh1: Seq<F>,
    /// Fast unit hydrograph.
    pub uh2: Seq<F>,
}

impl<F> View for Gr4jState<F> {
    type V = Gr4jStores<F>;

    open spec fn view(&self) -> Gr4jStores<F> {
        Gr4jStores { s: self.s, r: self.r, uh1: self.uh1@, uh2: self.uh2@ }
    }
}

impl<F> Gr4jStores<F> {
    /// Both unit hydrographs have room for at least one step.
    pub open spec fn wf(self) -> bool {
        self.uh1.len() > 0 && self.uh2.len() > 0
    }
}

/// GR4J model with pre-computed unit-hydrograph ordinates.
#[derive(Debug, Clone)]
pub struct Gr4j<F> {
    params: Gr4jParams<F>,
    ord1: Vec<F>,
    ord2: Vec<F>,
}

/// Why the parameters are rejected, if they are.
pub open spec fn gr4j_fault<F: Arith>(p: Gr4jParams<F>) -> Option<Fault> {
    if p.x1.undefined() || p.x1.within(zero()) {
        Some(invalid("x1"@, "production store capacity must be > 0 mm"@))
    } else if p.x2.undefined() {
        Some(invalid("x2"@, "groundwater exchange coefficient must be finite"@))
    } else if p.x3.undefined() || p.x3.within(zero()) {
        Some(invalid("x3"@, "routing store capacity must be > 0 mm"@))
    } else if p.x4.undefined() || p.x4.below(half()) {
        Some(invalid("x4"@, "unit hydrograph time base must be >= 0.5 days"@))
    } else {
        None
    }
}

/// S-curve of the slow unit hydrograph: `(t/x4)^(5/2)` up to `x4`, one beyond.
pub open spec fn s_curve1<F: Arith>(t: F, x4: F) -> F {
    if t.within(zero()) {
        zero()
    } else if t.below(x4) {
        t.over(x4).raised(F::literal(5, 2))
    } else {
        one()
    }
}

/// S-curve of the fast unit hydrograph over `[0, 2 x4]`.
pub open spec fn s_curve2<F: Arith>(t: F, x4: F) -> F {
    if t.within(zero()) {
        zero()
    } else if t.within(x4) {
        half::<F>().times(t.over(x4).raised(F::literal(5, 2)))
    } else if t.below(two::<F>().times(x4)) {
        one::<F>().minus(
            half::<F>().times(two::<F>().minus(t.over(x4)).raised(F::literal(5, 2))),
        )
    } else {
        one()
    }
}

/// Ordinate of day `j` of the slow unit hydrograph.
pub open spec fn ordinate1<F: Arith>(x4: F, j: int) -> F {
    s_curve1(F::natural((j + 1) as nat), x4).minus(s_curve1(F::natural(j as nat), x4))
}

/// Ordinate of day `j` of the fast unit hydrograph.
pub open spec fn ordinate2<F: Arith>(x4: F, j: int) -> F {
    s_curve2(F::natural((j + 1) as nat), x4).minus(s_curve2(F::natural(j as nat), x4))
}

/// Ordinates of the slow unit hydrograph.
pub open spec fn ordinates1<F: Arith>(x4: F) -> Seq<F> {
    Seq::new(buffer_len(x4), |j: int| ordinate1(x4, j))
}

/// Ordinates of the fast unit hydrograph.
pub open spec fn ordinates2<F: Arith>(x4: F) -> Seq<F> {
    Seq::new(buffer_len(two::<F>().times(x4)), |j: int| ordinate2(x4, j))
}

/// Fluxes of the production store in one time step.
pub struct Production<F> {
    /// Net precipitation.
    pub pn: F,
    /// Net evapotranspiration demand.
    pub en: F,
    /// Rainfall entering the store.
    pub ps: F,
    /// Evapotranspiration from the store.
    pub es: F,
    /// Percolation leak.
    pub perc: F,
    /// Store level afterwards.
    pub s: F,
}

/// Rainfall entering the production store.
pub open spec fn store_gain<F: Arith>(x1: F, s: F, pn: F) -> F {
    let sr = s.over(x1);
    if zero::<F>().below(pn) {
        let w = pn.over(x1).hyp_tan();
        x1.times(one::<F>().minus(sr.times(sr))).times(w).over(one::<F>().plus(sr.times(w)))
    } else {
        zero()
    }
}

/// Evapotranspiration drawn from the production store.
pub open spec fn store_loss<F: Arith>(x1: F, s: F, en: F) -> F {
    let sr = s.over(x1);
    if zero::<F>().below(en) {
        let w = en.over(x1).hyp_tan();
        s.times(two::<F>().minus(sr)).times(w).over(
            one::<F>().plus(one::<F>().minus(sr).times(w)),
        )
    } else {
        zero()
    }
}

/// Outflow of a store at level `s` with relative level `c`:
/// `s (1 - [1 + c^4]^(-1/4))`.
pub open spec fn leak<F: Arith>(s: F, c: F) -> F {
    s.times(one::<F>().minus(one::<F>().plus(c.int_raised(4)).raised(F::literal(-1, 4))))
}

/// Production store: interception, filling, evapotranspiration, percolation.
pub open spec fn production<F: Arith>(x1: F, s: F, p: F, pet: F) -> Production<F> {
    let pn = if pet.within(p) {
        p.minus(pet)
    } else {
        zero()
    };
    let en = if pet.within(p) {
        zero()
    } else {
        pet.minus(p)
    };
    let ps = store_gain(x1, s, pn);
    let es = store_loss(x1, s, en);
    let filled = s.plus(ps).minus(es);
    let perc = leak(filled, filled.over(F::literal(9, 4).times(x1)));
    Production { pn, en, ps, es, perc, s: filled.minus(perc) }
}

/// Effective rainfall.
pub open spec fn effective<F: Arith>(prod: Production<F>) -> F {
    prod.perc.plus(prod.pn.minus(prod.ps))
}

/// Share of the effective rainfall that takes the slow branch.
pub open spec fn slow_share<F: Arith>(prod: Production<F>) -> F {
    F::literal(9, 10).times(effective(prod))
}

/// Share of the effective rainfall that takes the fast branch.
pub open spec fn fast_share<F: Arith>(prod: Production<F>) -> F {
    effective(prod).minus(slow_share(prod))
}

/// Slow unit hydrograph with the pulse of the step, before it advances.
pub open spec fn slow_charged<F: Arith>(
    prm: Gr4jParams<F>,
    st: Gr4jStores<F>,
    p: F,
    pet: F,
) -> Seq<F> {
    spread(ordinates1(prm.x4), st.uh1, slow_share(production(prm.x1, st.s, p, pet)))
}

/// Fast unit hydrograph with the pulse of the step, before it advances.
pub open spec fn fast_charged<F: Arith>(
    prm: Gr4jParams<F>,
    st: Gr4jStores<F>,
    p: F,
    pet: F,
) -> Seq<F> {
    spread(ordinates2(prm.x4), st.uh2, fast_share(production(prm.x1, st.s, p, pet)))
}

/// Groundwater exchange: `x2 (R/x3)^(7/2)`.
pub open spec fn exchange<F: Arith>(prm: Gr4jParams<F>, r: F) -> F {
    prm.x2.times(r.over(prm.x3).raised(F::literal(7, 2)))
}

/// Routing store after inflow and exchange, before its outflow.
pub open spec fn routing_filled<F: Arith>(
    prm: Gr4jParams<F>,
    st: Gr4jStores<F>,
    p: F,
    pet: F,
) -> F {
    st.r.plus(slow_charged(prm, st, p, pet)[0]).plus(exchange(prm, st.r)).greater(zero())
}

/// Outflow of the routing store.
pub open spec fn routing_outflow<F: Arith>(
    prm: Gr4jParams<F>,
    st: Gr4jStores<F>,
    p: F,
    pet: F,
) -> F {
    let filled = routing_filled(prm, st, p, pet);
    leak(filled, filled.over(prm.x3))
}

/// Outflow of the direct branch.
pub open spec fn direct_outflow<F: Arith>(
    prm: Gr4jParams<F>,
    st: Gr4jStores<F>,
    p: F,
    pet: F,
) -> F {
    fast_charged(prm, st, p, pet)[0].plus(exchange(prm, st.r)).greater(zero())
}

/// State after one time step.
pub open spec fn gr4j_next<F: Arith>(
    prm: Gr4jParams<F>,
    st: Gr4jStores<F>,
    p: F,
    pet: F,
) -> Gr4jStores<F> {
    Gr4jStores {
        s: production(prm.x1, st.s, p, pet).s,
        r: routing_filled(prm, st, p, pet).minus(routing_outflow(prm, st, p, pet)),
        uh1: advanced(slow_charged(prm, st, p, pet)),
        uh2: advanced(fast_charged(prm, st, p, pet)),
    }
}

/// Discharge of one time step.
pub open spec fn gr4j_discharge<F: Arith>(
    prm: Gr4jParams<F>,
    st: Gr4jStores<F>,
    p: F,
    pet: F,
) -> F {
    routing_outflow(prm, st, p, pet).plus(direct_outflow(prm, st, p, pet))
}

/// State after the first `n` steps of the forcing.
pub open spec fn gr4j_after<F: Arith>(
    prm: Gr4jParams<F>,
    st: Gr4jStores<F>,
    precip: Seq<F>,
    pet: Seq<F>,
    n: nat,
) -> Gr4jStores<F>
    decreases n,
{
    if n == 0 {
        st
    } else {
        gr4j_next(prm, gr4j_after(prm, st, precip, pet, (n - 1) as nat), precip[n - 1], pet[n - 1])
    }
}

/// Discharge series of the forcing, from state `st`.
pub open spec fn gr4j_series<F: Arith>(
    prm: Gr4jParams<F>,
    st: Gr4jStores<F>,
    precip: Seq<F>,
    pet: Seq<F>,
) -> Seq<F> {
    Seq::new(
        precip.len(),
        |i: int|
            gr4j_discharge(prm, gr4j_after(prm, st, precip, pet, i as nat), precip[i], pet[i]),
    )
}

/// Default initial state: `S = 0.3 x1`, `R = 0.5 x3`, empty unit hydrographs.
pub open spec fn gr4j_start<F: Arith>(prm: Gr4jParams<F>) -> Gr4jStores<F> {
    Gr4jStores {
        s: F::literal(3, 10).times(prm.x1),
        r: half::<F>().times(prm.x3),
        uh1: Seq::new(buffer_len(prm.x4), |j: int| zero()),
        uh2: Seq::new(buffer_len(two::<F>().times(prm.x4)), |j: int| zero()),
    }
}

/// Evaluates the S-curve of the slow unit hydrograph.
fn s_curve1_at<F: Scalar>(t: F, x4: F) -> (r: F)
    ensures
        r == s_curve1(t, x4),
{
    if t.at_most(F::ratio(0, 1)) {
        F::ratio(0, 1)
    } else if t.less_than(x4) {
        t.div(x4).powf(F::ratio(5, 2))
    } else {
        F::ratio(1, 1)
    }
}

/// Evaluates the S-curve of the fast unit hydrograph.
fn s_curve2_at<F: Scalar>(t: F, x4: F) -> (r: F)
    ensures
        r == s_curve2(t, x4),
{
    let two = F::ratio(2, 1);
    let half = F::ratio(1, 2);
    if t.at_most(F::ratio(0, 1)) {
        F::ratio(0, 1)
    } else if t.at_most(x4) {
        half.mul(t.div(x4).powf(F::ratio(5, 2)))
    } else if t.less_than(two.mul(x4)) {
        F::ratio(1, 1).sub(half.mul(two.sub(t.div(x4)).powf(F::ratio(5, 2))))
    } else {
        F::ratio(1, 1)
    }
}

/// Unit-hydrograph ordinates as successive differences of the S-curves.
pub fn ordinates<F: Scalar>(x4: F) -> (r: (Vec<F>, Vec<F>))
    ensures
        r.0@ == ordinates1(x4),
        r.1@ == ordinates2(x4),
        r.0@.len() >= 1,
        r.1@.len() >= 1,
{
    let n1 = steps_of(x4);
    let n2 = steps_of(F::ratio(2, 1).mul(x4));
    let mut ord1: Vec<F> = Vec::new();
    let mut j: usize = 0;
    while j < n1
        invariant
            j <= n1,
            ord1@.len() == j,
            forall|i: int| 0 <= i < j ==> #[trigger] ord1@[i] == ordinate1(x4, i),
        decreases n1 - j,
    {
        let next = s_curve1_at(F::from_usize(j + 1), x4);
        let this = s_curve1_at(F::from_usize(j), x4);
        ord1.push(next.sub(this));
        j = j + 1;
    }
    let mut ord2: Vec<F> = Vec::new();
    let mut k: usize = 0;
    while k < n2
        invariant
            k <= n2,
            ord2@.len() == k,
            forall|i: int| 0 <= i < k ==> #[trigger] ord2@[i] == ordinate2(x4, i),
        decreases n2 - k,
    {
        let next = s_curve2_at(F::from_usize(k + 1), x4);
        let this = s_curve2_at(F::from_usize(k), x4);
        ord2.push(next.sub(this));
        k = k + 1;
    }
    assert(ord1@ =~= ordinates1(x4));
    assert(ord2@ =~= ordinates2(x4));
    (ord1, ord2)
}

/// Outflow of a store at level `s` with relative level `c`.
fn leak_of<F: Scalar>(s: F, c: F) -> (r: F)
    ensures
        r == leak(s, c),
{
    let one = F::ratio(1, 1);
    s.mul(one.sub(one.add(c.powi(4)).powf(F::ratio(-1, 4))))
}

/// Runs the production store.
fn produce<F: Scalar>(x1: F, s: F, p: F, pet: F) -> (r: Production<F>)
    ensures
        r == production(x1, s, p, pet),
{
    let zero = F::ratio(0, 1);
    let one = F::ratio(1, 1);
    // Interception by net precipitation / net evapotranspiration.
    let (pn, en) = if pet.at_most(p) {
        (p.sub(pet), zero)
    } else {
        (zero, pet.sub(p))
    };
    // Rainfall fills the store, evapotranspiration drains it.
    let sr = s.div(x1);
    let ps = if zero.less_than(pn) {
        let w = pn.div(x1).tanh();
        x1.mul(one.sub(sr.mul(sr))).mul(w).div(one.add(sr.mul(w)))
    } else {
        zero
    };
    let es = if zero.less_than(en) {
        let w = en.div(x1).tanh();
        s.mul(F::ratio(2, 1).sub(sr)).mul(w).div(one.add(one.sub(sr).mul(w)))
    } else {
        zero
    };
    let filled = s.add(ps).sub(es);
    let perc = leak_of(filled, filled.div(F::ratio(9, 4).mul(x1)));
    Production { pn, en, ps, es, perc, s: filled.sub(perc) }
}

impl<F> Gr4j<F> {
    /// The parameters of the model.
    pub closed spec fn spec_params(self) -> Gr4jParams<F> {
        self.params
    }
}

impl<F: Arith> Gr4j<F> {
    /// A model has sound parameters and the ordinates they call for.
    pub closed spec fn wf(self) -> bool {
        &&& gr4j_fault(self.params) is None
        &&& self.ord1@ == ordinates1(self.params.x4)
        &&& self.ord2@ == ordinates2(self.params.x4)
    }
}

/// Why the forcing is rejected, if it is.
pub open spec fn gr4j_forcing_fault(precip: nat, pet: nat) -> Option<Fault> {
    if precip != pet {
        Some(mismatch(precip, pet))
    } else {
        None
    }
}

impl<F: Scalar> Gr4j<F> {
    /// Builds the model, validating parameters and pre-computing UH ordinates.
    pub fn new(params: Gr4jParams<F>) -> (r: Result<Self, Error>)
        ensures
            match gr4j_fault(params) {
                Some(fault) => r is Err && r->Err_0@ == fault,
                None => r is Ok && r->Ok_0.wf() && r->Ok_0.spec_params() == params,
            },
    {
        let zero = F::ratio(0, 1);
        if params.x1.is_nan() || params.x1.at_most(zero) {
            return Err(reject("x1", "production store capacity must be > 0 mm"));
        }
        if params.x2.is_nan() {
            return Err(reject("x2", "groundwater exchange coefficient must be finite"));
        }
        if params.x3.is_nan() || params.x3.at_most(zero) {
            return Err(reject("x3", "routing store capacity must be > 0 mm"));
        }
        if params.x4.is_nan() || params.x4.less_than(F::ratio(1, 2)) {
            return Err(reject("x4", "unit hydrograph time base must be >= 0.5 days"));
        }
        let (ord1, ord2) = ordinates(params.x4);
        Ok(Gr4j { params, ord1, ord2 })
    }

    /// The parameters of the model.
    pub fn params(&self) -> (r: &Gr4jParams<F>)
        ensures
            *r == self.spec_params(),
    {
        &self.params
    }

    /// Default initial state: `S = 0.3 x1`, `R = 0.5 x3` (airGR convention).
    /// Use a warm-up period before evaluating goodness of fit.
    pub fn initial_state(&self) -> (r: Gr4jState<F>)
        requires
            self.wf(),
        ensures
            r@ == gr4j_start(self.spec_params()),
            r@.wf(),
    {
        let r = Gr4jState {
            s: F::ratio(3, 10).mul(self.params.x1),
            r: F::ratio(1, 2).mul(self.params.x3),
            uh1: zeros(self.ord1.len()),
            uh2: zeros(self.ord2.len()),
        };
        assert(r@ =~= gr4j_start(self.spec_params()));
        r
    }

    /// Advances one time step with precipitation `p` and potential
    /// evapotranspiration `pet` (both mm), returning simulated discharge (mm).
    pub fn step(&self, state: &mut Gr4jState<F>, p: F, pet: F) -> (q: F)
        requires
            self.wf(),
            old(state)@.wf(),
        ensures
            final(state)@ == gr4j_next(self.spec_params(), old(state)@, p, pet),
            final(state)@.wf(),
            q == gr4j_discharge(self.spec_params(), old(state)@, p, pet),
    {
        let zero = F::ratio(0, 1);
        let prod = produce(self.params.x1, state.s, p, pet);
        state.s = prod.s;

        // Effective rainfall, split 90% slow / 10% fast routing.
        let pr = prod.perc.add(prod.pn.sub(prod.ps));
        let pr9 = F::ratio(9, 10).mul(pr);
        let pr1 = pr.sub(pr9);
        spread_pulse(&self.ord1, &mut state.uh1, pr9);
        spread_pulse(&self.ord2, &mut state.uh2, pr1);
        let q9 = shift_front(&mut state.uh1);
        let q1 = shift_front(&mut state.uh2);

        // Groundwater exchange.
        let f = self.params.x2.mul(state.r.div(self.params.x3).powf(F::ratio(7, 2)));

        // Non-linear routing store.
        let filled = state.r.add(q9).add(f).max(zero);
        let qr = leak_of(filled, filled.div(self.params.x3));
        state.r = filled.sub(qr);

        // Direct branch.
        let qd = q1.add(f).max(zero);
        qr.add(qd)
    }

    /// Runs the series from `state`, which is carried along to the end of the
    /// series. A rejected forcing leaves the state as it was.
    pub fn run_from(&self, state: &mut Gr4jState<F>, precip: &[F], pet: &[F]) -> (r: Result<
        Vec<F>,
        Error,
    >)
        requires
            self.wf(),
            old(state)@.wf(),
        ensures
            match gr4j_forcing_fault(precip@.len(), pet@.len()) {
                Some(fault) => r is Err && r->Err_0@ == fault && final(state)@ == old(state)@,
                None => {
                    &&& r is Ok
                    &&& r->Ok_0@ == gr4j_series(self.spec_params(), old(state)@, precip@, pet@)
                    &&& final(state)@ == gr4j_after(
                        self.spec_params(),
                        old(state)@,
                        precip@,
                        pet@,
                        precip@.len(),
                    )
                },
            },
            final(state)@.wf(),
    {
        if precip.len() != pet.len() {
            return Err(Error::ForcingLengthMismatch { precip: precip.len(), pet: pet.len() });
        }
        let ghost prm = self.spec_params();
        let ghost start = old(state)@;
        let mut q: Vec<F> = Vec::new();
        let mut i: usize = 0;
        while i < precip.len()
            invariant
                self.wf(),
                prm == self.spec_params(),
                i <= precip@.len(),
                precip@.len() == pet@.len(),
                state@.wf(),
                state@ == gr4j_after(prm, start, precip@, pet@, i as nat),
                q@.len() == i,
                forall|j: int|
                    0 <= j < i ==> #[trigger] q@[j] == gr4j_series(prm, start, precip@, pet@)[j],
            decreases precip@.len() - i,
        {
            let v = self.step(state, precip[i], pet[i]);
            q.push(v);
            i = i + 1;
        }
        assert(q@ =~= gr4j_series(prm, start, precip@, pet@));
        Ok(q)
    }

    /// Runs the full series from the default initial state.
    pub fn run(&self, precip: &[F], pet: &[F]) -> (r: Result<Vec<F>, Error>)
        requires
            self.wf(),
        ensures
            match gr4j_forcing_fault(precip@.len(), pet@.len()) {
                Some(fault) => r is Err && r->Err_0@ == fault,
                None => {
                    &&& r is Ok
                    &&& r->Ok_0@ == gr4j_series(
                        self.spec_params(),
                        gr4j_start(self.spec_params()),
                        precip@,
                        pet@,
                    )
                },
            },
    {
        let mut state = self.initial_state();
        self.run_from(&mut state, precip, pet)
    }
}

} // verus!
