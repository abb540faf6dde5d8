//! Flow in a network follows the links between its nodes.
use vstd::prelude::*;
use crate::routing::Subcatchment;

verus! {

use crate::exact::{re, Elementary, Real};
use crate::laws::hydrograph::lemma_routed_prefix;
use crate::laws::reach::{reach_step_conserves_water, routable};
use crate::number::{sum, Arith};
use crate::routing::{
    first_node_fault, lemma_inflow_len, lemma_outlet_is_last, lemma_routed_len, network_fault,
    node_fault, node_inflow, node_outflow, outlet_count, reach_coefficients, routed,
};

/// Routing starts steady, with the first inflow as the first outflow, and in
/// every later step the reach of travel time K gains what flows in less what
/// flows out: `K (x I + (1 - x) Q)` grows by `dt / 2 (I' + I - Q' - Q)`.
pub proof fn every_routed_step_balances<T: Elementary>(
    k: Real<T>,
    x: Real<T>,
    dt: Real<T>,
    inflow: Seq<Real<T>>,
    t: int,
)
    requires
        routable(k, x, dt),
        0 <= t < inflow.len(),
    ensures
        ({
            let out = routed(reach_coefficients(k, x, dt), inflow);
            &&& out.len() == inflow.len()
            &&& out[0] == inflow[0]
            &&& t > 0 ==> k.v * (x.v * inflow[t].v + (1real - x.v) * out[t].v) - k.v * (x.v
                * inflow[t - 1].v + (1real - x.v) * out[t - 1].v) == dt.v / 2real * (inflow[t
                - 1].v + inflow[t].v) - dt.v / 2real * (out[t - 1].v + out[t].v)
        }),
{
    let c = reach_coefficients(k, x, dt);
    let out = routed(c, inflow);
    lemma_routed_prefix(c, inflow, 1);
    let first = inflow.take(1);
    assert(routed(c, first) =~= seq![first[0]]);
    assert(out.take(1)[0] == out[0]);
    if t > 0 {
        lemma_routed_prefix(c, inflow, t + 1);
        lemma_routed_prefix(c, inflow, t);
        let upto = inflow.take(t + 1);
        assert(upto.drop_last() =~= inflow.take(t));
        assert(out.take(t + 1)[t] == out[t]);
        assert(out.take(t)[t - 1] == out[t - 1]);
        lemma_routed_len(c, inflow.take(t));
        lemma_routed_len(c, upto);
        reach_step_conserves_water(k, x, dt, inflow[t], inflow[t - 1], out[t - 1]);
    }
}

/// What each node before `i` sends to node `i` at time `t`: its outflow where it
/// drains there, nothing else.
pub open spec fn sent_to<T: Elementary>(
    nodes: Seq<Subcatchment<Real<T>>>,
    dt: Real<T>,
    i: int,
    t: int,
) -> Seq<Real<T>> {
    Seq::new(
        i as nat,
        |j: int|
            if nodes[j].downstream is Some && nodes[j].downstream->0 as int == i {
                node_outflow(nodes, dt, j as nat)[t]
            } else {
                re(0real)
            },
    )
}

/// Outflow has the length of the local runoff.
proof fn lemma_flow_len<T: Elementary>(
    nodes: Seq<Subcatchment<Real<T>>>,
    dt: Real<T>,
    i: nat,
)
    requires
        network_fault(nodes, dt) is None,
        i < nodes.len(),
    ensures
        node_outflow(nodes, dt, i).len() == nodes[0].local_runoff@.len(),
{
    lemma_outlet_is_last(nodes, dt);
    lemma_inflow_len(nodes, dt, i as int, i);
    assert(nodes[i as int].local_runoff@.len() == nodes[0].local_runoff@.len());
    if nodes[i as int].reach is Some {
        let m = nodes[i as int].reach->0;
        lemma_routed_len(
            reach_coefficients(m.k(), m.x(), dt),
            node_inflow(nodes, dt, i as int, i),
        );
    }
}

/// Inflow from the first nodes.
proof fn lemma_sent<T: Elementary>(
    nodes: Seq<Subcatchment<Real<T>>>,
    dt: Real<T>,
    i: int,
    upto: nat,
    t: int,
)
    requires
        network_fault(nodes, dt) is None,
        nodes.len() <= usize::MAX,
        0 <= i < nodes.len(),
        upto <= i,
        0 <= t < nodes[0].local_runoff@.len(),
    ensures
        node_inflow(nodes, dt, i, upto)[t].v == nodes[i].local_runoff@[t].v + sum(
            sent_to(nodes, dt, i, t).take(upto as int),
        ).v,
    decreases upto,
{
    lemma_outlet_is_last(nodes, dt);
    assert(nodes[i].local_runoff@.len() == nodes[0].local_runoff@.len());
    let s = sent_to(nodes, dt, i, t);
    if upto > 0 {
        let j = (upto - 1) as nat;
        lemma_sent(nodes, dt, i, j, t);
        lemma_inflow_len(nodes, dt, i, j);
        lemma_flow_len(nodes, dt, j);
        assert(s.take(upto as int).drop_last() =~= s.take(j as int));
        assert(s.take(upto as int).last() == s[j as int]);
    }
}

/// Flow follows the links: at each time the inflow of a node is its local runoff
/// and the outflow of exactly those nodes that drain into it.
pub proof fn flow_follows_the_links<T: Elementary>(
    nodes: Seq<Subcatchment<Real<T>>>,
    dt: Real<T>,
    i: int,
    t: int,
)
    requires
        network_fault(nodes, dt) is None,
        nodes.len() <= usize::MAX,
        0 <= i < nodes.len(),
        0 <= t < nodes[0].local_runoff@.len(),
    ensures
        node_inflow(nodes, dt, i, i as nat)[t].v == nodes[i].local_runoff@[t].v + sum(
            sent_to(nodes, dt, i, t),
        ).v,
{
    lemma_sent(nodes, dt, i, i as nat, t);
    let s = sent_to(nodes, dt, i, t);
    assert(s.take(i) =~= s);
}

/// The inflow of a node into which no node drains is its local runoff.
pub proof fn headwaters_carry_their_runoff<F: Arith>(
    nodes: Seq<Subcatchment<F>>,
    dt: F,
    i: int,
    upto: nat,
)
    requires
        0 <= i <= usize::MAX,
        upto <= i < nodes.len(),
        forall|j: int|
            0 <= j < i ==> (#[trigger] nodes[j]).downstream is None || nodes[j].downstream->0 as int
                != i,
    ensures
        node_inflow(nodes, dt, i, upto) == nodes[i].local_runoff@,
    decreases upto,
{
    if upto > 0 {
        headwaters_carry_their_runoff(nodes, dt, i, (upto - 1) as nat);
        assert(nodes[upto - 1].downstream is None || nodes[upto - 1].downstream->0 as int != i);
    }
}

/// What leaves a node is its inflow, routed through its own reach where it has
/// one.
pub proof fn nodes_route_through_their_own_reach<F: Arith>(
    nodes: Seq<Subcatchment<F>>,
    dt: F,
    i: nat,
)
    ensures
        nodes[i as int].reach is None ==> node_outflow(nodes, dt, i) == node_inflow(
            nodes,
            dt,
            i as int,
            i,
        ),
        nodes[i as int].reach is Some ==> node_outflow(nodes, dt, i) == routed(
            reach_coefficients(
                nodes[i as int].reach->0.k(),
                nodes[i as int].reach->0.x(),
                dt,
            ),
            node_inflow(nodes, dt, i as int, i),
        ),
{
}

/// A series routed through a reach, or as it is where there is none.
pub open spec fn routed_alone<T: Elementary>(
    node: Subcatchment<Real<T>>,
    dt: Real<T>,
) -> Seq<Real<T>> {
    match node.reach {
        Some(m) => routed(reach_coefficients(m.k(), m.x(), dt), node.local_runoff@),
        None => node.local_runoff@,
    }
}

/// Where every node drains straight to an outlet without a reach, the flow at the
/// outlet is at each time its own runoff and the runoff of all others, routed
/// each through its own reach.
pub proof fn star_network_adds_routed_runoff<T: Elementary>(
    nodes: Seq<Subcatchment<Real<T>>>,
    dt: Real<T>,
    t: int,
)
    requires
        network_fault(nodes, dt) is None,
        nodes.len() <= usize::MAX,
        0 <= t < nodes[0].local_runoff@.len(),
        nodes.last().reach is None,
        forall|j: int|
            0 <= j < nodes.len() - 1 ==> (#[trigger] nodes[j]).downstream is Some
                && nodes[j].downstream->0 as int == nodes.len() - 1,
    ensures
        ({
            let n = nodes.len() - 1;
            node_outflow(nodes, dt, n as nat)[t].v == nodes[n].local_runoff@[t].v + sum(
                Seq::new(n as nat, |j: int| routed_alone(nodes[j], dt)[t]),
            ).v
        }),
{
    let n = nodes.len() - 1;
    lemma_outlet_is_last(nodes, dt);
    flow_follows_the_links(nodes, dt, n, t);
    let s = sent_to(nodes, dt, n, t);
    let r = Seq::new(n as nat, |j: int| routed_alone(nodes[j], dt)[t]);
    assert forall|j: int| 0 <= j < n implies #[trigger] s[j] == r[j] by {
        assert(nodes[j].downstream is Some);
        headwaters_carry_their_runoff(nodes, dt, j, j as nat);
    }
    assert(s =~= r);
}

/// A network is accepted exactly where it has nodes, all of one length, every
/// link leads to a later node of the network, one node alone is an outlet, and
/// the time step is positive.
pub proof fn networks_are_accepted_in_drainage_order<T: Elementary>(
    nodes: Seq<Subcatchment<Real<T>>>,
    dt: Real<T>,
)
    requires
        nodes.len() <= usize::MAX,
    ensures
        network_fault(nodes, dt) is None <==> {
            &&& nodes.len() > 0
            &&& forall|i: int|
                0 <= i < nodes.len() ==> (#[trigger] nodes[i]).local_runoff@.len()
                    == nodes[0].local_runoff@.len()
            &&& forall|i: int|
                0 <= i < nodes.len() - 1 ==> (#[trigger] nodes[i]).downstream is Some && i
                    < nodes[i].downstream->0 < nodes.len()
            &&& nodes[nodes.len() - 1].downstream is None
            &&& dt.v > 0real
        },
{
    if network_fault(nodes, dt) is None {
        lemma_outlet_is_last(nodes, dt);
    }
    if {
        &&& nodes.len() > 0
        &&& forall|i: int|
            0 <= i < nodes.len() ==> (#[trigger] nodes[i]).local_runoff@.len()
                == nodes[0].local_runoff@.len()
        &&& forall|i: int|
            0 <= i < nodes.len() - 1 ==> (#[trigger] nodes[i]).downstream is Some && i
                < nodes[i].downstream->0 < nodes.len()
        &&& nodes[nodes.len() - 1].downstream is None
        &&& dt.v > 0real
    } {
        lemma_sound_nodes(nodes, 0);
        lemma_one_outlet(nodes, (nodes.len() - 1) as nat);
    }
}

/// Nodes in drainage order have no fault.
proof fn lemma_sound_nodes<F>(nodes: Seq<Subcatchment<F>>, i: int)
    requires
        0 <= i <= nodes.len(),
        forall|j: int|
            0 <= j < nodes.len() ==> (#[trigger] nodes[j]).local_runoff@.len()
                == nodes[0].local_runoff@.len(),
        forall|j: int|
            0 <= j < nodes.len() - 1 ==> (#[trigger] nodes[j]).downstream is Some && j
                < nodes[j].downstream->0 < nodes.len(),
        nodes.len() > 0,
        nodes[nodes.len() - 1].downstream is None,
    ensures
        first_node_fault(nodes, i) is None,
    decreases nodes.len() - i,
{
    if i < nodes.len() {
        lemma_sound_nodes(nodes, i + 1);
        assert(nodes[i].local_runoff@.len() == nodes[0].local_runoff@.len());
        if i < nodes.len() - 1 {
            assert(nodes[i].downstream is Some);
        }
        assert(node_fault(nodes, i) is None);
    }
}

/// Nodes that all drain somewhere hold no outlet.
proof fn lemma_one_outlet<F>(nodes: Seq<Subcatchment<F>>, n: nat)
    requires
        n < nodes.len(),
        forall|j: int| 0 <= j < nodes.len() - 1 ==> (#[trigger] nodes[j]).downstream is Some,
    ensures
        outlet_count(nodes, n) == 0,
    decreases n,
{
    if n > 0 {
        lemma_one_outlet(nodes, (n - 1) as nat);
        assert(nodes[n - 1].downstream is Some);
    }
}

} // verus!
