//! Convolution buffers of unit hydrographs.
use vstd::prelude::*;
use crate::number::Scalar;

verus! {

use crate::number::{zero, Arith};

/// A buffer with `pulse` spread over it by `weights`, ordinate by ordinate.
pub open spec fn spread<F: Arith>(weights: Seq<F>, buffer: Seq<F>, pulse: F) -> Seq<F> {
    Seq::new(
        buffer.len(),
        |i: int|
            if i < weights.len() {
                buffer[i].plus(weights[i].times(pulse))
            } else {
                buffer[i]
            },
    )
}

/// A buffer moved one step towards its front, an empty step entering at the back.
pub open spec fn advanced<F: Arith>(buffer: Seq<F>) -> Seq<F> {
    buffer.drop_first().push(zero())
}

/// Adds `pulse`, weighted by `weights`, to the buffer.
pub(crate) fn spread_pulse<F: Scalar>(weights: &Vec<F>, buffer: &mut Vec<F>, pulse: F)
    ensures
        final(buffer)@ == spread(weights@, old(buffer)@, pulse),
{
    let n = buffer.len();
    let mut i: usize = 0;
    while i < n && i < weights.len()
        invariant
            n == buffer@.len(),
            n == old(buffer)@.len(),
            i <= n,
            i <= weights@.len(),
            forall|j: int|
                0 <= j < i ==> #[trigger] buffer@[j] == old(buffer)@[j].plus(
                    weights@[j].times(pulse),
                ),
            forall|j: int| i <= j < n ==> #[trigger] buffer@[j] == old(buffer)@[j],
        decreases n - i,
    {
        let v = buffer[i].add(weights[i].mul(pulse));
        buffer.set(i, v);
        i = i + 1;
    }
    assert(buffer@ =~= spread(weights@, old(buffer)@, pulse));
}

/// Pops the front of a convolution buffer, shifting the rest left.
pub(crate) fn shift_front<F: Scalar>(buffer: &mut Vec<F>) -> (front: F)
    requires
        old(buffer)@.len() > 0,
    ensures
        front == old(buffer)@[0],
        final(buffer)@ == advanced(old(buffer)@),
{
    let front = buffer.remove(0);
    buffer.push(F::ratio(0, 1));
    front
}

/// A number rounded up to a count of at least one; one where it has no count.
pub open spec fn buffer_len<F: Arith>(x: F) -> nat {
    match x.ceiling() {
        Some(n) => if n >= 1 {
            n as nat
        } else {
            1
        },
        None => 1,
    }
}

/// Length of the buffer for a response lasting `x` steps.
pub(crate) fn steps_of<F: Scalar>(x: F) -> (r: usize)
    ensures
        r == buffer_len(x),
        r >= 1,
{
    match x.ceil_to_usize() {
        Some(n) => if n >= 1 {
            n
        } else {
            1
        },
        None => 1,
    }
}

/// A series of `n` zeros.
pub(crate) fn zeros<F: Scalar>(n: usize) -> (r: Vec<F>)
    ensures
        r@ == Seq::new(n as nat, |j: int| zero::<F>()),
{
    let mut r: Vec<F> = Vec::new();
    let mut j: usize = 0;
    while j < n
        invariant
            j <= n,
            r@.len() == j,
            forall|i: int| 0 <= i < j ==> #[trigger] r@[i] == zero::<F>(),
        decreases n - j,
    {
        r.push(F::ratio(0, 1));
        j = j + 1;
    }
    assert(r@ =~= Seq::new(n as nat, |j: int| zero::<F>()));
    r
}

} // verus!
