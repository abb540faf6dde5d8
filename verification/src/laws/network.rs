//! Laws of river networks.
use vstd::prelude::*;
use crate::routing::Subcatchment;

verus! {

use crate::exact::{Elementary, Real};
use crate::laws::algebra::lemma_distribute;
use crate::laws::hydrograph::{
    passed, routing_conserves_water, stable_routing_stays_non_negative,
};
use crate::laws::reach::{reach_storage, reaches_route_forward, stable};
use crate::laws::sums::non_negative;
use crate::routing::{
    added, lemma_inflow_len, lemma_outlet_is_last, lemma_routed_len, network_fault, node_inflow,
    node_outflow, reach_coefficients, reach_fault,
};

/// Outflow at time `t` of those of the first `upto` nodes that drain into `i`.
spec fn arriving<T: Elementary>(
    nodes: Seq<Subcatchment<Real<T>>>,
    dt: Real<T>,
    t: int,
    i: int,
    upto: nat,
) -> real
    decreases upto,
{
    if upto == 0 {
        0real
    } else {
        arriving(nodes, dt, t, i, (upto - 1) as nat) + if nodes[upto - 1].downstream == Some(
            i as usize,
        ) {
            node_outflow(nodes, dt, (upto - 1) as nat)[t].v
        } else {
            0real
        }
    }
}

/// Outflow at time `t` of those of the first `upto` nodes that drain to `m` or
/// beyond.
spec fn crossing<T: Elementary>(
    nodes: Seq<Subcatchment<Real<T>>>,
    dt: Real<T>,
    t: int,
    m: int,
    upto: nat,
) -> real
    decreases upto,
{
    if upto == 0 {
        0real
    } else {
        let d = nodes[upto - 1].downstream;
        crossing(nodes, dt, t, m, (upto - 1) as nat) + if d is None || d->0 >= m {
            node_outflow(nodes, dt, (upto - 1) as nat)[t].v
        } else {
            0real
        }
    }
}

/// Local runoff at time `t` of the first `n` nodes together.
pub open spec fn local_total<T: Elementary>(
    nodes: Seq<Subcatchment<Real<T>>>,
    t: int,
    n: nat,
) -> real
    decreases n,
{
    if n == 0 {
        0real
    } else {
        local_total(nodes, t, (n - 1) as nat) + nodes[n - 1].local_runoff@[t].v
    }
}

/// What crosses `m` either arrives there or crosses the next node too.
proof fn lemma_crossing_splits<T: Elementary>(
    nodes: Seq<Subcatchment<Real<T>>>,
    dt: Real<T>,
    t: int,
    m: int,
    upto: nat,
)
    requires
        0 <= m <= usize::MAX,
    ensures
        crossing(nodes, dt, t, m, upto) == arriving(nodes, dt, t, m, upto) + crossing(
            nodes,
            dt,
            t,
            m + 1,
            upto,
        ),
    decreases upto,
{
    if upto > 0 {
        lemma_crossing_splits(nodes, dt, t, m, (upto - 1) as nat);
    }
}

/// Inflow is local runoff plus what arrives.
proof fn lemma_inflow_at<T: Elementary>(
    nodes: Seq<Subcatchment<Real<T>>>,
    dt: Real<T>,
    t: int,
    i: int,
    upto: nat,
)
    requires
        network_fault(nodes, dt) is None,
        forall|j: int| 0 <= j < nodes.len() ==> (#[trigger] nodes[j]).reach is None,
        0 <= i < nodes.len(),
        upto <= i,
        0 <= t < nodes[0].local_runoff@.len(),
    ensures
        node_inflow(nodes, dt, i, upto)[t].v == nodes[i].local_runoff@[t].v + arriving(
            nodes,
            dt,
            t,
            i,
            upto,
        ),
    decreases upto,
{
    lemma_outlet_is_last(nodes, dt);
    lemma_inflow_len(nodes, dt, i, upto);
    if upto > 0 {
        let j = (upto - 1) as nat;
        lemma_inflow_at(nodes, dt, t, i, j);
        lemma_inflow_len(nodes, dt, i, j);
        lemma_inflow_len(nodes, dt, j as int, j);
        assert(nodes[j as int].reach is None);
        assert(node_outflow(nodes, dt, j).len() == nodes[j as int].local_runoff@.len());
    }
}

/// What crosses `m` is the local runoff of all nodes before it.
proof fn lemma_crossing_total<T: Elementary>(
    nodes: Seq<Subcatchment<Real<T>>>,
    dt: Real<T>,
    t: int,
    m: nat,
)
    requires
        network_fault(nodes, dt) is None,
        forall|j: int| 0 <= j < nodes.len() ==> (#[trigger] nodes[j]).reach is None,
        m <= nodes.len() <= usize::MAX,
        0 <= t < nodes[0].local_runoff@.len(),
    ensures
        crossing(nodes, dt, t, m as int, m) == local_total(nodes, t, m),
    decreases m,
{
    if m > 0 {
        let i = (m - 1) as nat;
        lemma_crossing_total(nodes, dt, t, i);
        lemma_crossing_splits(nodes, dt, t, i as int, i);
        lemma_inflow_at(nodes, dt, t, i as int, i);
        lemma_outlet_is_last(nodes, dt);
        assert(nodes[i as int].reach is None);
        assert(nodes[i as int].downstream is None || nodes[i as int].downstream->0 >= m);
    }
}

/// Nothing but the outlet crosses the end of the network.
proof fn lemma_nothing_escapes<T: Elementary>(
    nodes: Seq<Subcatchment<Real<T>>>,
    dt: Real<T>,
    t: int,
    upto: nat,
)
    requires
        network_fault(nodes, dt) is None,
        upto < nodes.len(),
    ensures
        crossing(nodes, dt, t, nodes.len() as int, upto) == 0real,
    decreases upto,
{
    if upto > 0 {
        lemma_nothing_escapes(nodes, dt, t, (upto - 1) as nat);
        lemma_outlet_is_last(nodes, dt);
        assert(nodes[upto - 1].downstream is Some);
    }
}

/// Without reaches the flow at the outlet is, at every time, the local runoff
/// of all subcatchments together.
pub proof fn unrouted_network_sums_the_runoff<T: Elementary>(
    nodes: Seq<Subcatchment<Real<T>>>,
    dt: Real<T>,
    t: int,
)
    requires
        network_fault(nodes, dt) is None,
        nodes.len() <= usize::MAX,
        forall|j: int| 0 <= j < nodes.len() ==> (#[trigger] nodes[j]).reach is None,
        0 <= t < nodes[0].local_runoff@.len(),
    ensures
        node_outflow(nodes, dt, (nodes.len() - 1) as nat)[t].v == local_total(
            nodes,
            t,
            nodes.len(),
        ),
{
    let n = nodes.len();
    lemma_outlet_is_last(nodes, dt);
    lemma_crossing_total(nodes, dt, t, n);
    lemma_nothing_escapes(nodes, dt, t, (n - 1) as nat);
}

/// Whether every reach of a network is sound.
pub open spec fn reaches_sound<T: Elementary>(nodes: Seq<Subcatchment<Real<T>>>) -> bool {
    forall|i: int|
        0 <= i < nodes.len() && (#[trigger] nodes[i]).reach is Some ==> reach_fault(
            nodes[i].reach->0.k(),
            nodes[i].reach->0.x(),
        ) is None
}

/// Outflow has the length of the local runoff.
proof fn lemma_outflow_len<T: Elementary>(
    nodes: Seq<Subcatchment<Real<T>>>,
    dt: Real<T>,
    i: nat,
)
    requires
        i < nodes.len(),
    ensures
        node_outflow(nodes, dt, i).len() == nodes[i as int].local_runoff@.len(),
{
    let inflow = node_inflow(nodes, dt, i as int, i);
    lemma_inflow_len(nodes, dt, i as int, i);
    if nodes[i as int].reach is Some {
        let m = nodes[i as int].reach->0;
        lemma_routed_len(reach_coefficients(m.k(), m.x(), dt), inflow);
    }
}

/// The volume of a sum of series is the sum of their volumes.
proof fn lemma_passed_added<T: Elementary>(a: Seq<Real<T>>, b: Seq<Real<T>>, dt: Real<T>)
    requires
        a.len() == b.len(),
    ensures
        passed(added(a, b), dt) == passed(a, dt) + passed(b, dt),
    decreases a.len(),
{
    if a.len() > 1 {
        let n = a.len() as int;
        lemma_passed_added(a.drop_last(), b.drop_last(), dt);
        assert(added(a, b).drop_last() =~= added(a.drop_last(), b.drop_last()));
        lemma_distribute(a[n - 2].v + a[n - 1].v, b[n - 2].v + b[n - 1].v, dt.v / 2real);
        let c = added(a, b);
        assert(c[n - 2].v + c[n - 1].v == (a[n - 2].v + a[n - 1].v) + (b[n - 2].v + b[n - 1].v));
    }
}

/// Water that the reach below node `i` holds at the end of the series more than
/// at its beginning.
pub open spec fn reach_gain<T: Elementary>(
    nodes: Seq<Subcatchment<Real<T>>>,
    dt: Real<T>,
    i: nat,
) -> real {
    let inflow = node_inflow(nodes, dt, i as int, i);
    let outflow = node_outflow(nodes, dt, i);
    match nodes[i as int].reach {
        Some(m) => reach_storage(m.k(), m.x(), inflow.last(), outflow.last()) - reach_storage(
            m.k(),
            m.x(),
            inflow[0],
            outflow[0],
        ),
        None => 0real,
    }
}

/// Water that the first `n` reaches gain together.
pub open spec fn reach_gains<T: Elementary>(
    nodes: Seq<Subcatchment<Real<T>>>,
    dt: Real<T>,
    n: nat,
) -> real
    decreases n,
{
    if n == 0 {
        0real
    } else {
        reach_gains(nodes, dt, (n - 1) as nat) + reach_gain(nodes, dt, (n - 1) as nat)
    }
}

/// Volume of the local runoff of the first `n` nodes together.
pub open spec fn runoff_volume<T: Elementary>(
    nodes: Seq<Subcatchment<Real<T>>>,
    dt: Real<T>,
    n: nat,
) -> real
    decreases n,
{
    if n == 0 {
        0real
    } else {
        runoff_volume(nodes, dt, (n - 1) as nat) + passed(nodes[n - 1].local_runoff@, dt)
    }
}

/// Volume from those of the first `upto` nodes that drain into `i`.
spec fn arriving_volume<T: Elementary>(
    nodes: Seq<Subcatchment<Real<T>>>,
    dt: Real<T>,
    i: int,
    upto: nat,
) -> real
    decreases upto,
{
    if upto == 0 {
        0real
    } else {
        arriving_volume(nodes, dt, i, (upto - 1) as nat) + if nodes[upto - 1].downstream == Some(
            i as usize,
        ) {
            passed(node_outflow(nodes, dt, (upto - 1) as nat), dt)
        } else {
            0real
        }
    }
}

/// Volume from those of the first `upto` nodes that drain to `m` or beyond.
spec fn crossing_volume<T: Elementary>(
    nodes: Seq<Subcatchment<Real<T>>>,
    dt: Real<T>,
    m: int,
    upto: nat,
) -> real
    decreases upto,
{
    if upto == 0 {
        0real
    } else {
        let d = nodes[upto - 1].downstream;
        crossing_volume(nodes, dt, m, (upto - 1) as nat) + if d is None || d->0 >= m {
            passed(node_outflow(nodes, dt, (upto - 1) as nat), dt)
        } else {
            0real
        }
    }
}

/// What crosses `m` either arrives there or crosses the next node too.
proof fn lemma_crossing_volume_splits<T: Elementary>(
    nodes: Seq<Subcatchment<Real<T>>>,
    dt: Real<T>,
    m: int,
    upto: nat,
)
    requires
        0 <= m <= usize::MAX,
    ensures
        crossing_volume(nodes, dt, m, upto) == arriving_volume(nodes, dt, m, upto)
            + crossing_volume(nodes, dt, m + 1, upto),
    decreases upto,
{
    if upto > 0 {
        lemma_crossing_volume_splits(nodes, dt, m, (upto - 1) as nat);
    }
}

/// Inflow is local runoff plus what arrives.
proof fn lemma_inflow_volume<T: Elementary>(
    nodes: Seq<Subcatchment<Real<T>>>,
    dt: Real<T>,
    i: int,
    upto: nat,
)
    requires
        network_fault(nodes, dt) is None,
        0 <= i < nodes.len(),
        upto <= i,
    ensures
        passed(node_inflow(nodes, dt, i, upto), dt) == passed(nodes[i].local_runoff@, dt)
            + arriving_volume(nodes, dt, i, upto),
    decreases upto,
{
    lemma_outlet_is_last(nodes, dt);
    if upto > 0 {
        let j = (upto - 1) as nat;
        lemma_inflow_volume(nodes, dt, i, j);
        lemma_inflow_len(nodes, dt, i, j);
        lemma_outflow_len(nodes, dt, j);
        assert(nodes[i].local_runoff@.len() == nodes[j as int].local_runoff@.len());
        lemma_passed_added(node_inflow(nodes, dt, i, j), node_outflow(nodes, dt, j), dt);
    }
}

/// What crosses `m` is the local runoff of all nodes before it, less what
/// their reaches gain.
proof fn lemma_crossing_volume_total<T: Elementary>(
    nodes: Seq<Subcatchment<Real<T>>>,
    dt: Real<T>,
    m: nat,
)
    requires
        network_fault(nodes, dt) is None,
        reaches_sound(nodes),
        nodes[0].local_runoff@.len() > 0,
        m <= nodes.len() <= usize::MAX,
    ensures
        crossing_volume(nodes, dt, m as int, m) + reach_gains(nodes, dt, m) == runoff_volume(
            nodes,
            dt,
            m,
        ),
    decreases m,
{
    if m > 0 {
        let i = (m - 1) as nat;
        lemma_crossing_volume_total(nodes, dt, i);
        lemma_crossing_volume_splits(nodes, dt, i as int, i);
        lemma_inflow_volume(nodes, dt, i as int, i);
        lemma_outlet_is_last(nodes, dt);
        lemma_inflow_len(nodes, dt, i as int, i);
        assert(nodes[i as int].local_runoff@.len() == nodes[0].local_runoff@.len());
        let inflow = node_inflow(nodes, dt, i as int, i);
        if nodes[i as int].reach is Some {
            let r = nodes[i as int].reach->0;
            reaches_route_forward(r.k(), r.x(), dt);
            routing_conserves_water(r.k(), r.x(), dt, inflow);
        }
        assert(nodes[i as int].downstream is None || nodes[i as int].downstream->0 >= m);
    }
}

/// Nothing but the outlet crosses the end of the network.
proof fn lemma_no_volume_escapes<T: Elementary>(
    nodes: Seq<Subcatchment<Real<T>>>,
    dt: Real<T>,
    upto: nat,
)
    requires
        network_fault(nodes, dt) is None,
        upto < nodes.len(),
    ensures
        crossing_volume(nodes, dt, nodes.len() as int, upto) == 0real,
    decreases upto,
{
    if upto > 0 {
        lemma_no_volume_escapes(nodes, dt, (upto - 1) as nat);
        lemma_outlet_is_last(nodes, dt);
        assert(nodes[upto - 1].downstream is Some);
    }
}

/// A network conserves water: what passes the outlet and what the reaches gain
/// is the local runoff of all subcatchments together.
pub proof fn network_conserves_water<T: Elementary>(
    nodes: Seq<Subcatchment<Real<T>>>,
    dt: Real<T>,
)
    requires
        network_fault(nodes, dt) is None,
        nodes.len() <= usize::MAX,
        nodes[0].local_runoff@.len() > 0,
        reaches_sound(nodes),
    ensures
        passed(node_outflow(nodes, dt, (nodes.len() - 1) as nat), dt) + reach_gains(
            nodes,
            dt,
            nodes.len(),
        ) == runoff_volume(nodes, dt, nodes.len()),
{
    let n = nodes.len();
    lemma_outlet_is_last(nodes, dt);
    lemma_crossing_volume_total(nodes, dt, n);
    lemma_no_volume_escapes(nodes, dt, (n - 1) as nat);
}

/// Whether every reach of a network is sound and routes in its stable window.
pub open spec fn reaches_stable<T: Elementary>(
    nodes: Seq<Subcatchment<Real<T>>>,
    dt: Real<T>,
) -> bool {
    forall|i: int|
        0 <= i < nodes.len() && (#[trigger] nodes[i]).reach is Some ==> {
            let m = nodes[i].reach->0;
            reach_fault(m.k(), m.x()) is None && stable(m.k(), m.x(), dt)
        }
}

/// Whether no local runoff is negative.
pub open spec fn runoff_non_negative<T: Elementary>(nodes: Seq<Subcatchment<Real<T>>>) -> bool {
    forall|i: int| 0 <= i < nodes.len() ==> non_negative((#[trigger] nodes[i]).local_runoff@)
}

/// Inflow is not negative.
proof fn lemma_inflow_sign<T: Elementary>(
    nodes: Seq<Subcatchment<Real<T>>>,
    dt: Real<T>,
    i: int,
    upto: nat,
)
    requires
        network_fault(nodes, dt) is None,
        reaches_stable(nodes, dt),
        runoff_non_negative(nodes),
        0 <= i < nodes.len(),
        upto <= i,
    ensures
        non_negative(node_inflow(nodes, dt, i, upto)),
    decreases upto, 0nat,
{
    if upto == 0 {
        assert(non_negative(nodes[i].local_runoff@));
    } else {
        let j = (upto - 1) as nat;
        lemma_inflow_sign(nodes, dt, i, j);
        lemma_outflow_sign(nodes, dt, j);
        let (rest, out) = (node_inflow(nodes, dt, i, j), node_outflow(nodes, dt, j));
        let inflow = node_inflow(nodes, dt, i, upto);
        assert forall|t: int| 0 <= t < inflow.len() implies (#[trigger] inflow[t]).v >= 0real by {
            assert(rest[t].v >= 0real);
            if t < out.len() {
                assert(out[t].v >= 0real);
            }
        }
    }
}

/// Outflow is not negative.
proof fn lemma_outflow_sign<T: Elementary>(
    nodes: Seq<Subcatchment<Real<T>>>,
    dt: Real<T>,
    i: nat,
)
    requires
        network_fault(nodes, dt) is None,
        reaches_stable(nodes, dt),
        runoff_non_negative(nodes),
        i < nodes.len(),
    ensures
        non_negative(node_outflow(nodes, dt, i)),
    decreases i, 1nat,
{
    lemma_inflow_sign(nodes, dt, i as int, i);
    let inflow = node_inflow(nodes, dt, i as int, i);
    if nodes[i as int].reach is Some {
        let m = nodes[i as int].reach->0;
        stable_routing_stays_non_negative(m.k(), m.x(), dt, inflow);
    }
}

/// In a network whose reaches all route in their stable window, non-negative
/// runoff makes a non-negative flow at the outlet.
pub proof fn stable_network_stays_non_negative<T: Elementary>(
    nodes: Seq<Subcatchment<Real<T>>>,
    dt: Real<T>,
)
    requires
        network_fault(nodes, dt) is None,
        reaches_stable(nodes, dt),
        runoff_non_negative(nodes),
    ensures
        non_negative(node_outflow(nodes, dt, (nodes.len() - 1) as nat)),
{
    lemma_outflow_sign(nodes, dt, (nodes.len() - 1) as nat);
}

} // verus!
