//! Laws of the GR4J stores.
use vstd::prelude::*;

verus! {

use crate::exact::{lawful_pow, lawful_tanh, real_power, Elementary, Real};
use crate::gr4j::{leak, production, store_gain, store_loss};
use crate::laws::algebra::{
    lemma_assoc, lemma_commute, lemma_distribute, lemma_positive_product, lemma_product_mono,
    lemma_product_sign, lemma_quotient, lemma_quotient_at_most, lemma_quotient_is,
    lemma_quotient_mono, lemma_quotient_sign, lemma_share, lemma_strict, lemma_swap, lemma_unit,
};
use crate::number::Arith;

/// The relative level of a store and the fraction that a flux saturates to.
proof fn lemma_levels<T: Elementary>(x1: real, s: real, flux: real)
    requires
        lawful_tanh::<T>(),
        x1 > 0real,
        0real <= s <= x1,
        flux > 0real,
    ensures
        0real <= s / x1 <= 1real,
        x1 * (s / x1) == s,
        0real <= T::tanh(flux / x1) <= 1real,
        x1 * T::tanh(flux / x1) <= flux,
{
    lemma_quotient_sign(s, x1);
    lemma_quotient_mono(s, x1, x1);
    lemma_unit(x1);
    lemma_quotient_is(x1, x1, 1real);
    lemma_quotient(s, x1);
    lemma_commute(s / x1, x1);
    lemma_quotient_sign(flux, x1);
    lemma_quotient(flux, x1);
    lemma_commute(flux / x1, x1);
    lemma_product_mono(T::tanh(flux / x1), flux / x1, x1);
}

/// Rainfall enters the production store without exceeding the net rainfall or
/// the room left in the store.
pub proof fn store_gain_fits<T: Elementary>(x1: Real<T>, s: Real<T>, pn: Real<T>)
    requires
        lawful_tanh::<T>(),
        x1.v > 0real,
        0real <= s.v <= x1.v,
        pn.v >= 0real,
    ensures
        0real <= store_gain(x1, s, pn).v <= pn.v,
        s.v + store_gain(x1, s, pn).v <= x1.v,
{
    if pn.v > 0real {
        lemma_levels::<T>(x1.v, s.v, pn.v);
        let sr = s.v / x1.v;
        let w = T::tanh(pn.v / x1.v);
        let d = 1real + sr * w;
        let room = 1real - sr * sr;
        let n = x1.v * room * w;
        lemma_share(sr, sr);
        lemma_share(sr, w);
        // Between zero and the net rainfall.
        lemma_product_sign(x1.v, room);
        lemma_product_sign(x1.v * room, w);
        lemma_quotient_sign(n, d);
        lemma_share(room, x1.v);
        lemma_product_mono(x1.v * room, x1.v, w);
        lemma_commute(w, x1.v * room);
        lemma_commute(w, x1.v);
        assert(n <= x1.v * w);
        lemma_large_divisor(n, d);
        // Within the room left.
        let e = 1real - sr;
        let f = 1real + sr;
        lemma_distribute(1real, sr, e);
        lemma_distribute(1real, sr, sr);
        lemma_unit(e);
        lemma_unit(sr);
        assert(room == e * f);
        lemma_assoc(x1.v, e, f);
        lemma_assoc(x1.v * e, f, w);
        lemma_distribute(1real, sr, w);
        lemma_unit(w);
        assert(f * w <= d);
        lemma_distribute(1real, sr, x1.v);
        lemma_unit(x1.v);
        assert(x1.v * e == x1.v - s.v);
        lemma_product_mono(f * w, d, x1.v * e);
        lemma_commute(x1.v * e, d);
        lemma_quotient_at_most(n, d, x1.v * e);
    }
}

/// Dividing by a number of at least one makes a non-negative number no larger.
proof fn lemma_large_divisor(n: real, d: real)
    requires
        n >= 0real,
        d >= 1real,
    ensures
        n / d <= n,
{
    lemma_product_mono(1real, d, n);
    lemma_unit(n);
    lemma_commute(n, d);
    lemma_quotient_at_most(n, d, n);
}

/// Evapotranspiration from the production store exceeds neither its demand nor
/// the content of the store.
pub proof fn store_loss_fits<T: Elementary>(x1: Real<T>, s: Real<T>, en: Real<T>)
    requires
        lawful_tanh::<T>(),
        x1.v > 0real,
        0real <= s.v <= x1.v,
        en.v >= 0real,
    ensures
        0real <= store_loss(x1, s, en).v <= en.v,
        store_loss(x1, s, en).v <= s.v,
{
    if en.v > 0real {
        lemma_levels::<T>(x1.v, s.v, en.v);
        let sr = s.v / x1.v;
        let w = T::tanh(en.v / x1.v);
        let e = 1real - sr;
        let g = 2real - sr;
        let d = 1real + e * w;
        let n = s.v * g * w;
        lemma_share(e, w);
        // Between zero and the demand.
        lemma_product_sign(s.v, g);
        lemma_product_sign(s.v * g, w);
        lemma_quotient_sign(n, d);
        lemma_assoc(x1.v, sr, g);
        lemma_distribute(1real, sr, e);
        lemma_distribute(1real, sr, sr);
        lemma_distribute(2real, sr, sr);
        lemma_distribute(1real, 1real, sr);
        lemma_unit(sr);
        lemma_unit(e);
        lemma_commute(sr, g);
        lemma_commute(e, e);
        lemma_product_sign(e, e);
        lemma_distribute(1real, sr, e);
        assert(sr * g <= 1real);
        lemma_product_sign(sr, g);
        lemma_share(sr * g, x1.v);
        assert(s.v * g <= x1.v);
        lemma_product_mono(s.v * g, x1.v, w);
        lemma_commute(w, s.v * g);
        lemma_commute(w, x1.v);
        lemma_large_divisor(n, d);
        // Within the content.
        lemma_assoc(s.v, g, w);
        lemma_distribute(1real, e, w);
        lemma_unit(w);
        assert(g * w <= d);
        lemma_product_mono(g * w, d, s.v);
        lemma_commute(s.v, d);
        lemma_quotient_at_most(n, d, s.v);
    }
}

/// A number whose fourth power times at least one is one lies in `[0, 1]`.
proof fn lemma_fourth_root(z: real, x: real)
    requires
        z >= 0real,
        x >= 1real,
        z * z * z * z * x == 1real,
    ensures
        z <= 1real,
{
    if z > 1real {
        lemma_product_mono(1real, z, z);
        lemma_unit(z);
        assert(z * z >= 1real);
        lemma_product_mono(1real, z, z * z);
        lemma_unit(z * z);
        assert(z * z * z >= 1real);
        lemma_strict(1real, z, z * z * z);
        lemma_unit(z * z * z);
        assert(z * z * z * z > 1real);
        lemma_product_mono(1real, x, z * z * z * z);
        lemma_unit(z * z * z * z);
    }
}

/// The fourth power of a number.
pub(crate) proof fn lemma_power_four(c: real)
    ensures
        real_power(c, 4) == c * c * c * c,
        real_power(c, 4) >= 0real,
{
    assert(real_power(c, 0) == 1real);
    assert(real_power(c, 1) == 1real * c) by {
        reveal_with_fuel(real_power, 2);
    }
    lemma_unit(c);
    assert(real_power(c, 2) == c * c) by {
        reveal_with_fuel(real_power, 2);
    }
    assert(real_power(c, 3) == c * c * c) by {
        reveal_with_fuel(real_power, 2);
    }
    assert(real_power(c, 4) == c * c * c * c) by {
        reveal_with_fuel(real_power, 2);
    }
    lemma_assoc(c * c, c, c);
    lemma_square_sign(c);
    lemma_product_sign(c * c, c * c);
}

/// Squares are not negative.
pub(crate) proof fn lemma_square_sign(c: real)
    by (nonlinear_arith)
    ensures
        c * c >= 0real,
{
}

/// The outflow of a store lies between zero and its content. What stays in it
/// is at most the capacity, where `c` is the content relative to the capacity.
pub proof fn leak_fits<T: Elementary>(s: Real<T>, c: Real<T>, capacity: real)
    requires
        lawful_pow::<T>(),
        s.v >= 0real,
        capacity > 0real,
        c.v * capacity == s.v,
    ensures
        0real <= leak(s, c).v <= s.v,
        s.v - leak(s, c).v <= capacity,
{
    lemma_power_four(c.v);
    let x = 1real + real_power(c.v, 4);
    let z = T::pow(x, -1real / 4real);
    assert(z * z * z * z * x == 1real);
    lemma_fourth_root(z, x);
    assert(Real::<T>::literal(-1, 4).v == -1real / 4real);
    assert(leak(s, c).v == s.v * (1real - z));
    lemma_share(1real - z, s.v);
    // What stays is `s z = c z capacity`, and `(c z)^4 = 1 - z^4`.
    lemma_distribute(1real, z, s.v);
    lemma_unit(s.v);
    assert(s.v - leak(s, c).v == s.v * z);
    let u = c.v * z;
    let z4 = z * z * z * z;
    if u > 1real {
        let c4 = c.v * c.v * c.v * c.v;
        lemma_distribute(1real, c4, z4);
        lemma_unit(z4);
        assert(z4 + c4 * z4 == 1real);
        lemma_product_of_powers(c.v, z);
        assert(u * u * u * u == c4 * z4);
        lemma_product_sign(z, z);
        lemma_product_sign(z * z, z);
        lemma_product_sign(z * z * z, z);
        assert(u * u * u * u <= 1real);
        lemma_strict(1real, u, u);
        lemma_unit(u);
        lemma_strict(1real, u, u * u);
        lemma_unit(u * u);
        lemma_strict(1real, u, u * u * u);
        lemma_unit(u * u * u);
    }
    lemma_swap(c.v, capacity, z);
    lemma_product_mono(u, 1real, capacity);
    lemma_commute(u, capacity);
    lemma_unit(capacity);
}

/// The fourth power of a product.
proof fn lemma_product_of_powers(a: real, b: real)
    ensures
        (a * b) * (a * b) * (a * b) * (a * b) == (a * a * a * a) * (b * b * b * b),
{
    let u = a * b;
    // u * u == (a * a) * (b * b)
    lemma_square_of_product(a, b);
    lemma_square_of_product(a * a, b * b);
    lemma_assoc(u * u, u, u);
    lemma_assoc(a * a, a, a);
    lemma_assoc(b * b, b, b);
}

/// The square of a product.
proof fn lemma_square_of_product(a: real, b: real)
    ensures
        (a * b) * (a * b) == (a * a) * (b * b),
{
    lemma_assoc(a * b, a, b);
    lemma_swap(a, b, a);
    lemma_assoc(a * a, b, b);
}

/// The production store stays between empty and full, and no flux of it is
/// negative.
pub proof fn production_stays_sound<T: Elementary>(
    x1: Real<T>,
    s: Real<T>,
    p: Real<T>,
    pet: Real<T>,
)
    requires
        lawful_tanh::<T>(),
        lawful_pow::<T>(),
        x1.v > 0real,
        0real <= s.v <= x1.v,
        p.v >= 0real,
        pet.v >= 0real,
    ensures
        ({
            let prod = production(x1, s, p, pet);
            &&& 0real <= prod.s.v <= x1.v
            &&& 0real <= prod.ps.v <= prod.pn.v
            &&& 0real <= prod.es.v <= prod.en.v
            &&& prod.perc.v >= 0real
        }),
{
    let prod = production(x1, s, p, pet);
    store_gain_fits(x1, s, prod.pn);
    store_loss_fits(x1, s, prod.en);
    let filled = s.plus(prod.ps).minus(prod.es);
    assert(prod.pn.v == 0real || prod.en.v == 0real);
    assert(0real <= filled.v <= x1.v);
    let ninefourths = Real::<T>::literal(9, 4).v;
    lemma_quotient(9real, 4real);
    assert(ninefourths > 0real);
    let capacity = ninefourths * x1.v;
    lemma_positive_product(ninefourths, x1.v);
    lemma_quotient(filled.v, capacity);
    let c = filled.over(Real::<T>::literal(9, 4).times(x1));
    assert(c.v * capacity == filled.v);
    leak_fits(filled, c, capacity);
}

} // verus!
