//! Channel routing and river-network accumulation.
//!
//! Turns a set of subcatchment runoff series into a single outlet hydrograph
//! by Muskingum channel routing (McCarthy 1938) along a drainage tree. Series
//! are unit-agnostic; route in whatever flow unit the caller uses (see
//! [`mm_per_day_to_m3s`] for the usual conversion).
use vstd::prelude::*;
use vstd::string::*;
use crate::error::{reject, Error};
use crate::number::{copied, Scalar};
use crate::text::{around, decimal};

verus! {

use crate::error::{invalid, Fault};
use crate::number::{half, zero, Arith};
use crate::text::decimal_text;

/// Muskingum channel routing for a single reach.
///
/// `O[t] = C0 I[t] + C1 I[t-1] + C2 O[t-1]`, with the three coefficients
/// summing to one (mass-conserving). `k` is the storage-time constant (travel
/// time, same time unit as `dt`); `x` is the weighting factor in `[0, 0.5]`
/// (0 = linear reservoir / maximum attenuation, 0.5 = pure translation).
#[derive(Debug, Clone, Copy, PartialEq)]
pub struct Muskingum<F> {
    k: F,
    x: F,
}

/// Why `(k, x)` describes no reach, if it does not.
pub open spec fn reach_fault<F: Arith>(k: F, x: F) -> Option<Fault> {
    if k.undefined() || k.within(zero()) {
        Some(invalid("k"@, "Muskingum K (travel time) must be > 0"@))
    } else if x.undefined() || x.below(zero()) || half::<F>().below(x) {
        Some(invalid("x"@, "Muskingum x must be in [0, 0.5]"@))
    } else {
        None
    }
}

/// Routing coefficients `(C0, C1, C2)` of a reach for time step `dt`.
pub open spec fn reach_coefficients<F: Arith>(k: F, x: F, dt: F) -> (F, F, F) {
    let kx = k.times(x);
    let half_dt = half::<F>().times(dt);
    let denom = k.minus(kx).plus(half_dt);
    (
        half_dt.minus(kx).over(denom),
        half_dt.plus(kx).over(denom),
        k.minus(kx).minus(half_dt).over(denom),
    )
}

/// One routing step: present and previous inflow and previous outflow give
/// the present outflow.
pub open spec fn reach_step<F: Arith>(c: (F, F, F), now: F, before: F, out: F) -> F {
    c.0.times(now).plus(c.1.times(before)).plus(c.2.times(out))
}

/// The outflow hydrograph of a reach with coefficients `c`: it starts at the
/// first inflow and then follows [`reach_step`].
pub open spec fn routed<F: Arith>(c: (F, F, F), inflow: Seq<F>) -> Seq<F>
    decreases inflow.len(),
{
    if inflow.len() == 0 {
        Seq::empty()
    } else if inflow.len() == 1 {
        seq![inflow[0]]
    } else {
        let upto = routed(c, inflow.drop_last());
        upto.push(reach_step(c, inflow.last(), inflow[inflow.len() - 2], upto.last()))
    }
}

/// Routing keeps the number of steps.
pub proof fn lemma_routed_len<F: Arith>(c: (F, F, F), inflow: Seq<F>)
    ensures
        routed(c, inflow).len() == inflow.len(),
    decreases inflow.len(),
{
    if inflow.len() > 1 {
        lemma_routed_len(c, inflow.drop_last());
    }
}

impl<F> Muskingum<F> {
    /// Travel time of the reach.
    pub closed spec fn k(self) -> F {
        self.k
    }

    /// Weighting factor of the reach.
    pub closed spec fn x(self) -> F {
        self.x
    }
}

impl<F: Scalar> Muskingum<F> {
    /// Validates `k > 0` and `x` in `[0, 0.5]`.
    pub fn new(k: F, x: F) -> (r: Result<Self, Error>)
        ensures
            match reach_fault(k, x) {
                Some(fault) => r is Err && r->Err_0@ == fault,
                None => r is Ok && r->Ok_0.k() == k && r->Ok_0.x() == x,
            },
    {
        if k.is_nan() || k.at_most(F::ratio(0, 1)) {
            return Err(reject("k", "Muskingum K (travel time) must be > 0"));
        }
        if x.is_nan() || x.less_than(F::ratio(0, 1)) || F::ratio(1, 2).less_than(x) {
            return Err(reject("x", "Muskingum x must be in [0, 0.5]"));
        }
        Ok(Muskingum { k, x })
    }

    /// Routing coefficients `(C0, C1, C2)` for time step `dt`. They always sum
    /// to one; individual coefficients can go negative outside the stability
    /// window `2 K x <= dt <= 2 K (1 - x)`, which can produce minor overshoot
    /// but never violates mass balance.
    pub fn coefficients(&self, dt: F) -> (r: (F, F, F))
        ensures
            r == reach_coefficients(self.k(), self.x(), dt),
    {
        let kx = self.k.mul(self.x);
        let half_dt = F::ratio(1, 2).mul(dt);
        let denom = self.k.sub(kx).add(half_dt);
        let c0 = half_dt.sub(kx).div(denom);
        let c1 = half_dt.add(kx).div(denom);
        let c2 = self.k.sub(kx).sub(half_dt).div(denom);
        (c0, c1, c2)
    }

    /// Routes an inflow hydrograph through the reach with time step `dt`.
    /// The outflow is initialized to the first inflow value (steady start).
    pub fn route(&self, inflow: &[F], dt: F) -> (r: Vec<F>)
        ensures
            r@ == routed(reach_coefficients(self.k(), self.x(), dt), inflow@),
    {
        let mut out: Vec<F> = Vec::new();
        if inflow.len() == 0 {
            return out;
        }
        let (c0, c1, c2) = self.coefficients(dt);
        let ghost c = (c0, c1, c2);
        out.push(inflow[0]);
        assert(out@ =~= routed(c, inflow@.take(1)));
        let mut t: usize = 1;
        while t < inflow.len()
            invariant
                1 <= t <= inflow@.len(),
                c == (c0, c1, c2),
                out@.len() == t,
                out@ == routed(c, inflow@.take(t as int)),
            decreases inflow@.len() - t,
        {
            let o = c0.mul(inflow[t]).add(c1.mul(inflow[t - 1])).add(c2.mul(out[t - 1]));
            out.push(o);
            assert(inflow@.take(t + 1).drop_last() =~= inflow@.take(t as int));
            t = t + 1;
        }
        assert(inflow@.take(t as int) =~= inflow@);
        out
    }
}

/// One subcatchment in a [`RiverNetwork`].
#[derive(Debug, Clone)]
pub struct Subcatchment<F> {
    /// Local runoff generated on this subcatchment (already in flow units).
    pub local_runoff: Vec<F>,
    /// Index of the downstream subcatchment this one drains into, or `None`
    /// if it is the network outlet. Must refer to a later index (the nodes
    /// are given in upstream-to-downstream topological order).
    pub downstream: Option<usize>,
    /// Muskingum reach routing this node's outflow to `downstream`. `None`
    /// passes flow on unrouted (e.g. for the outlet node, or negligible
    /// reaches).
    pub reach: Option<Muskingum<F>>,
}

/// A drainage network of subcatchments, accumulated and routed to the outlet.
#[derive(Debug, Clone)]
pub struct RiverNetwork<F> {
    nodes: Vec<Subcatchment<F>>,
    dt: F,
}

/// Why node `i` cannot stand in the network, if it cannot.
pub open spec fn node_fault<F>(nodes: Seq<Subcatchment<F>>, i: int) -> Option<Fault> {
    if nodes[i].local_runoff@.len() != nodes[0].local_runoff@.len() {
        Some(
            invalid(
                "local_runoff"@,
                "node "@ + decimal_text(i as nat) + " series length differs from node 0"@,
            ),
        )
    } else {
        match nodes[i].downstream {
            None => None,
            Some(d) => if d <= i {
                Some(
                    invalid(
                        "downstream"@,
                        "node "@ + decimal_text(i as nat) + " drains to "@ + decimal_text(d as nat)
                            + ": links must point to a later (downstream) node"@,
                    ),
                )
            } else if d >= nodes.len() {
                Some(
                    invalid(
                        "downstream"@,
                        "node "@ + decimal_text(i as nat) + " drains to out-of-range node "@
                            + decimal_text(d as nat),
                    ),
                )
            } else {
                None
            },
        }
    }
}

/// The first fault among the nodes from index `i` on.
pub open spec fn first_node_fault<F>(nodes: Seq<Subcatchment<F>>, i: int) -> Option<Fault>
    decreases nodes.len() - i,
{
    if i >= nodes.len() {
        None
    } else {
        match node_fault(nodes, i) {
            Some(fault) => Some(fault),
            None => first_node_fault(nodes, i + 1),
        }
    }
}

/// How many of the first `n` nodes are outlets.
pub open spec fn outlet_count<F>(nodes: Seq<Subcatchment<F>>, n: nat) -> nat
    decreases n,
{
    if n == 0 {
        0
    } else {
        outlet_count(nodes, (n - 1) as nat) + if nodes[n - 1].downstream is None {
            1nat
        } else {
            0
        }
    }
}

/// Why the nodes and the time step make no network, if they do not.
pub open spec fn network_fault<F: Arith>(nodes: Seq<Subcatchment<F>>, dt: F) -> Option<Fault> {
    if nodes.len() == 0 {
        Some(invalid("nodes"@, "network needs at least one subcatchment"@))
    } else if first_node_fault(nodes, 0) is Some {
        first_node_fault(nodes, 0)
    } else if outlet_count(nodes, nodes.len()) != 1 {
        Some(
            invalid(
                "downstream"@,
                "network must have exactly one outlet, found "@ + decimal_text(
                    outlet_count(nodes, nodes.len()),
                ),
            ),
        )
    } else if dt.undefined() || dt.within(zero()) {
        Some(invalid("dt"@, "routing time step must be > 0"@))
    } else {
        None
    }
}

/// Step-wise sum of two series, as far as both go.
pub open spec fn added<F: Arith>(a: Seq<F>, b: Seq<F>) -> Seq<F> {
    Seq::new(
        a.len(),
        |t: int|
            if t < b.len() {
                a[t].plus(b[t])
            } else {
                a[t]
            },
    )
}

/// A series after the reach below a node, or unchanged where there is none.
pub open spec fn through_reach<F: Arith>(reach: Option<Muskingum<F>>, dt: F, flow: Seq<F>) -> Seq<
    F,
> {
    match reach {
        Some(m) => routed(reach_coefficients(m.k(), m.x(), dt), flow),
        None => flow,
    }
}

/// Inflow of node `i`: its local runoff plus the outflow of each node below
/// index `upto` that drains into it, in order.
pub open spec fn node_inflow<F: Arith>(
    nodes: Seq<Subcatchment<F>>,
    dt: F,
    i: int,
    upto: nat,
) -> Seq<F>
    decreases upto, 0nat,
{
    if upto == 0 {
        nodes[i].local_runoff@
    } else {
        let rest = node_inflow(nodes, dt, i, (upto - 1) as nat);
        if nodes[upto - 1].downstream == Some(i as usize) {
            added(rest, node_outflow(nodes, dt, (upto - 1) as nat))
        } else {
            rest
        }
    }
}

/// Outflow of node `i`: its complete inflow, routed through its reach.
pub open spec fn node_outflow<F: Arith>(nodes: Seq<Subcatchment<F>>, dt: F, i: nat) -> Seq<F>
    decreases i, 1nat,
{
    through_reach(nodes[i as int].reach, dt, node_inflow(nodes, dt, i as int, i))
}

/// Sound nodes have no fault from any index on.
proof fn lemma_no_fault<F>(nodes: Seq<Subcatchment<F>>, i: int, j: int)
    requires
        first_node_fault(nodes, i) is None,
        i <= j,
    ensures
        first_node_fault(nodes, j) is None,
    decreases j - i,
{
    if i < j && i < nodes.len() {
        lemma_no_fault(nodes, i + 1, j);
    }
}

/// In a sound network only the last node is an outlet.
pub proof fn lemma_outlet_is_last<F: Arith>(nodes: Seq<Subcatchment<F>>, dt: F)
    requires
        network_fault(nodes, dt) is None,
    ensures
        nodes.len() > 0,
        nodes.last().downstream is None,
        forall|i: int|
            0 <= i < nodes.len() - 1 ==> (#[trigger] nodes[i]).downstream is Some
                && i < nodes[i].downstream->0 < nodes.len(),
        forall|i: int|
            0 <= i < nodes.len() ==> (#[trigger] nodes[i]).local_runoff@.len()
                == nodes[0].local_runoff@.len(),
{
    let n = nodes.len();
    lemma_no_fault(nodes, 0, n - 1);
    assert(node_fault(nodes, n - 1) is None);
    assert(nodes[n - 1].downstream is None);
    assert forall|i: int| 0 <= i < n - 1 implies (#[trigger] nodes[i]).downstream is Some && i
        < nodes[i].downstream->0 < n by {
        lemma_no_fault(nodes, 0, i);
        assert(node_fault(nodes, i) is None);
        if nodes[i].downstream is None {
            lemma_outlet_counted(nodes, i, (n - 1) as nat);
            assert(outlet_count(nodes, n) >= 2);
        }
    }
    assert forall|i: int| 0 <= i < n implies (#[trigger] nodes[i]).local_runoff@.len()
        == nodes[0].local_runoff@.len() by {
        lemma_no_fault(nodes, 0, i);
        assert(node_fault(nodes, i) is None);
    }
}

/// An outlet among the first `n` nodes is counted.
proof fn lemma_outlet_counted<F>(nodes: Seq<Subcatchment<F>>, i: int, n: nat)
    requires
        0 <= i < n <= nodes.len(),
        nodes[i].downstream is None,
    ensures
        outlet_count(nodes, n) >= 1,
    decreases n,
{
    if i < n - 1 {
        lemma_outlet_counted(nodes, i, (n - 1) as nat);
    }
}

/// Inflows have the length of the local runoff.
pub proof fn lemma_inflow_len<F: Arith>(
    nodes: Seq<Subcatchment<F>>,
    dt: F,
    i: int,
    upto: nat,
)
    ensures
        node_inflow(nodes, dt, i, upto).len() == nodes[i].local_runoff@.len(),
    decreases upto,
{
    if upto > 0 {
        lemma_inflow_len(nodes, dt, i, (upto - 1) as nat);
    }
}

impl<F> RiverNetwork<F> {
    /// The subcatchments, upstream to downstream.
    pub closed spec fn nodes(self) -> Seq<Subcatchment<F>> {
        self.nodes@
    }

    /// The routing time step.
    pub closed spec fn dt(self) -> F {
        self.dt
    }
}

impl<F: Arith> RiverNetwork<F> {
    /// A network stands on sound nodes and a positive time step.
    pub open spec fn wf(self) -> bool {
        network_fault(self.nodes(), self.dt()) is None
    }
}

/// Adds two series step by step.
fn add_series<F: Scalar>(a: &Vec<F>, b: &Vec<F>) -> (r: Vec<F>)
    ensures
        r@ == added(a@, b@),
{
    let mut r: Vec<F> = Vec::new();
    let mut t: usize = 0;
    while t < a.len()
        invariant
            t <= a@.len(),
            r@.len() == t,
            forall|j: int| 0 <= j < t ==> #[trigger] r@[j] == added(a@, b@)[j],
        decreases a@.len() - t,
    {
        let v = if t < b.len() {
            a[t].add(b[t])
        } else {
            a[t]
        };
        r.push(v);
        t = t + 1;
    }
    assert(r@ =~= added(a@, b@));
    r
}

impl<F: Scalar> RiverNetwork<F> {
    /// Builds a network from subcatchments in upstream-to-downstream order
    /// with routing time step `dt`. Validates the topology (single outlet,
    /// strictly downstream links, equal series lengths).
    pub fn new(nodes: Vec<Subcatchment<F>>, dt: F) -> (r: Result<Self, Error>)
        ensures
            match network_fault(nodes@, dt) {
                Some(fault) => r is Err && r->Err_0@ == fault,
                None => r is Ok && r->Ok_0.wf() && r->Ok_0.nodes() == nodes@ && r->Ok_0.dt() == dt,
            },
    {
        if nodes.len() == 0 {
            return Err(reject("nodes", "network needs at least one subcatchment"));
        }
        let len = nodes[0].local_runoff.len();
        let mut outlets: usize = 0;
        let mut i: usize = 0;
        while i < nodes.len()
            invariant
                i <= nodes@.len(),
                nodes@.len() > 0,
                len == nodes@[0].local_runoff@.len(),
                outlets <= i,
                outlets == outlet_count(nodes@, i as nat),
                first_node_fault(nodes@, 0) == first_node_fault(nodes@, i as int),
            decreases nodes@.len() - i,
        {
            if nodes[i].local_runoff.len() != len {
                let reason = around("node ", i, " series length differs from node 0");
                return Err(reject("local_runoff", reason.as_str()));
            }
            match nodes[i].downstream {
                None => {
                    outlets = outlets + 1;
                },
                Some(d) => {
                    if d <= i {
                        let mut reason = around("node ", i, " drains to ");
                        reason.append(decimal(d).as_str());
                        reason.append(": links must point to a later (downstream) node");
                        return Err(reject("downstream", reason.as_str()));
                    }
                    if d >= nodes.len() {
                        let mut reason = around("node ", i, " drains to out-of-range node ");
                        reason.append(decimal(d).as_str());
                        return Err(reject("downstream", reason.as_str()));
                    }
                },
            }
            i = i + 1;
        }
        if outlets != 1 {
            let mut reason = "network must have exactly one outlet, found ".to_owned();
            reason.append(decimal(outlets).as_str());
            return Err(reject("downstream", reason.as_str()));
        }
        if dt.is_nan() || dt.at_most(F::ratio(0, 1)) {
            return Err(reject("dt", "routing time step must be > 0"));
        }
        Ok(RiverNetwork { nodes, dt })
    }

    /// Accumulates and routes all subcatchments to the outlet, returning the
    /// outlet hydrograph (same length and unit as the local runoff series).
    ///
    /// Each node's total inflow is its local runoff plus the routed outflow of
    /// every upstream node draining into it; that total is then routed through
    /// the node's reach to its downstream node. The outlet is the last node;
    /// its own reach (if any) is applied as a final pass.
    pub fn route_to_outlet(&self) -> (r: Vec<F>)
        requires
            self.wf(),
        ensures
            r@ == node_outflow(self.nodes(), self.dt(), (self.nodes().len() - 1) as nat),
            r@.len() == self.nodes()[0].local_runoff@.len(),
    {
        proof {
            lemma_outlet_is_last(self.nodes@, self.dt);
        }
        let ghost nodes = self.nodes@;
        let dt = self.dt;
        let n = self.nodes.len();
        let mut accumulated: Vec<Vec<F>> = Vec::new();
        let mut j: usize = 0;
        while j < n
            invariant
                j <= n,
                n == self.nodes@.len(),
                accumulated@.len() == j,
                forall|m: int|
                    0 <= m < j ==> (#[trigger] accumulated@[m])@ == self.nodes@[m].local_runoff@,
            decreases n - j,
        {
            accumulated.push(copied(self.nodes[j].local_runoff.as_slice()));
            j = j + 1;
        }
        let mut outlet: Vec<F> = Vec::new();
        let mut i: usize = 0;
        while i < n
            invariant
                i <= n,
                n == nodes.len(),
                n > 0,
                nodes == self.nodes@,
                dt == self.dt,
                accumulated@.len() == n,
                forall|m: int|
                    0 <= m < n - 1 ==> (#[trigger] nodes[m]).downstream is Some && m
                        < nodes[m].downstream->0 < n,
                nodes[n - 1].downstream is None,
                forall|m: int|
                    i <= m < n ==> (#[trigger] accumulated@[m])@ == node_inflow(
                        nodes,
                        dt,
                        m,
                        i as nat,
                    ),
                i == n ==> outlet@ == node_outflow(nodes, dt, (n - 1) as nat),
            decreases n - i,
        {
            let flow = match &self.nodes[i].reach {
                Some(m) => m.route(accumulated[i].as_slice(), dt),
                None => copied(accumulated[i].as_slice()),
            };
            assert(flow@ == node_outflow(nodes, dt, i as nat));
            match self.nodes[i].downstream {
                Some(d) => {
                    let total = add_series(&accumulated[d], &flow);
                    accumulated.set(d, total);
                },
                None => {
                    outlet = flow;
                },
            }
            assert forall|m: int| i + 1 <= m < n implies (#[trigger] accumulated@[m])@
                == node_inflow(nodes, dt, m, (i + 1) as nat) by {
                assert(nodes[i as int].downstream is Some);
            }
            i = i + 1;
        }
        proof {
            lemma_inflow_len(nodes, dt, n - 1, (n - 1) as nat);
            match nodes[n - 1].reach {
                Some(m) => {
                    lemma_routed_len(
                        reach_coefficients(m.k(), m.x(), dt),
                        node_inflow(nodes, dt, n - 1, (n - 1) as nat),
                    );
                },
                None => {},
            }
        }
        outlet
    }
}

/// Runoff `q` in mm/day over `area` square kilometres as a flow in m3/s.
pub open spec fn volumetric_flow<F: Arith>(q: F, area: F) -> F {
    q.times(area).times(F::literal(1000, 1)).over(F::literal(86400, 1))
}

/// Flow `q` in m3/s as runoff in mm/day over `area` square kilometres.
pub open spec fn areal_runoff<F: Arith>(q: F, area: F) -> F {
    q.times(F::literal(86400, 1)).over(area.times(F::literal(1000, 1)))
}

/// Converts runoff in mm/day over `area_km2` to a volumetric flow in m3/s
/// (`q * area * 1000 / 86400`). Useful to combine subcatchments of different
/// areas before routing.
pub fn mm_per_day_to_m3s<F: Scalar>(q_mm_day: F, area_km2: F) -> (r: F)
    ensures
        r == volumetric_flow(q_mm_day, area_km2),
{
    q_mm_day.mul(area_km2).mul(F::ratio(1000, 1)).div(F::ratio(86400, 1))
}

/// Inverse of [`mm_per_day_to_m3s`]: m3/s back to mm/day over `area_km2`.
pub fn m3s_to_mm_per_day<F: Scalar>(q_m3s: F, area_km2: F) -> (r: F)
    ensures
        r == areal_runoff(q_m3s, area_km2),
{
    q_m3s.mul(F::ratio(86400, 1)).div(area_km2.mul(F::ratio(1000, 1)))
}

} // verus!
