//! Identities and bounds of fixed-point arithmetic.
use vstd::prelude::*;
use crate::scalar::{
    is_floor_sqrt, lemma_floor_sqrt_unique, lemma_product_sign, magnitude, quotient, Scalar, SCALE,
};
use crate::vector::Vec2;

verus! {

/// The scalar zero.
pub open spec fn zero() -> Scalar {
    Scalar { raw: 0 }
}

/// The scalar one.
pub open spec fn one() -> Scalar {
    Scalar { raw: SCALE }
}

/// The zero vector.
pub open spec fn origin() -> Vec2 {
    Vec2 { x: zero(), y: zero() }
}

/// Dividing a multiple of `d` by `d` gives the multiplier back.
pub proof fn lemma_quotient_exact(x: int, d: int)
    requires
        d > 0,
    ensures
        quotient(x * d, d) == x,
{
    reveal(quotient);
    lemma_product_sign(x, d);
    let m = magnitude(x);
    assert((m * d) / d == m) by (nonlinear_arith)
        requires
            d > 0,
            m >= 0,
    ;
}

/// A product with a factor of magnitude at most `d`, divided by `d`, is no
/// larger in magnitude than the other factor.
pub proof fn lemma_quotient_bound(x: int, f: int, d: int)
    requires
        d > 0,
        magnitude(f) <= d,
    ensures
        magnitude(quotient(x * f, d)) <= magnitude(x),
{
    reveal(quotient);
    lemma_product_sign(x, f);
    let m = magnitude(x);
    let g = magnitude(f);
    assert((m * g) / d <= m && (m * g) / d >= 0) by (nonlinear_arith)
        requires
            d > 0,
            m >= 0,
            0 <= g <= d,
    ;
}

/// Adding or subtracting zero changes nothing.
pub proof fn lemma_add_zero(a: Scalar)
    ensures
        a.add_spec(zero()) == a,
        zero().add_spec(a) == a,
        a.sub_spec(zero()) == a,
{
}

/// A product with zero is zero.
pub proof fn lemma_mul_zero(a: Scalar)
    ensures
        a.mul_spec(zero()) == zero(),
        zero().mul_spec(a) == zero(),
{
    reveal(quotient);
    assert(a@ * 0 == 0 && 0 * a@ == 0) by (nonlinear_arith);
    assert(0int / (SCALE as int) == 0);
}

/// A product with one is the other factor.
pub proof fn lemma_mul_one(a: Scalar)
    ensures
        a.mul_spec(one()) == a,
        one().mul_spec(a) == a,
{
    lemma_quotient_exact(a@, SCALE as int);
    assert(a@ * SCALE == SCALE * a@) by (nonlinear_arith);
}

/// A product with minus one is the negation of the other factor.
pub proof fn lemma_mul_minus_one(a: Scalar)
    ensures
        a.mul_spec(one().neg_spec()) == a.neg_spec(),
        one().neg_spec().mul_spec(a) == a.neg_spec(),
{
    lemma_quotient_exact(-a@, SCALE as int);
    assert(a@ * (-SCALE) == (-a@) * SCALE) by (nonlinear_arith);
    assert((-SCALE) * a@ == (-a@) * SCALE) by (nonlinear_arith);
}

/// A product with a whole number of ones is that multiple.
pub proof fn lemma_mul_whole(a: Scalar, n: int)
    requires
        n * SCALE == Scalar::of(n * SCALE)@,
    ensures
        Scalar::of(n * SCALE).mul_spec(a) == Scalar::of(n * a@),
{
    lemma_quotient_exact(n * a@, SCALE as int);
    assert((n * SCALE) * a@ == (n * a@) * SCALE) by (nonlinear_arith);
}

/// A whole multiple of a scalar, divided by that many ones, is the scalar.
pub proof fn lemma_div_whole(a: Scalar, n: int)
    requires
        n > 0,
        n * SCALE == Scalar::of(n * SCALE)@,
        n * a@ == Scalar::of(n * a@)@,
    ensures
        Scalar::of(n * a@).div_spec(Scalar::of(n * SCALE)) == a,
{
    assert(n * SCALE > 0) by (nonlinear_arith)
        requires
            n > 0,
            SCALE > 0,
    ;
    lemma_quotient_exact(a@, n * SCALE);
    assert((n * a@) * SCALE == a@ * (n * SCALE)) by (nonlinear_arith);
}

/// The square root of one is one.
pub proof fn lemma_sqrt_one()
    ensures
        one().sqrt_spec() == one(),
{
    assert(is_floor_sqrt(SCALE * SCALE, SCALE as int)) by (nonlinear_arith)
        requires
            SCALE == 1_000_000_000,
    ;
    lemma_floor_sqrt_unique(SCALE * SCALE, SCALE as int);
}

/// Half of zero is zero.
pub proof fn lemma_half_zero()
    ensures
        zero().half_spec() == zero(),
{
    reveal(quotient);
}

/// Zero divided by anything, zero included, is zero.
pub proof fn lemma_zero_div(b: Scalar)
    ensures
        zero().div_spec(b) == zero(),
{
    reveal(quotient);
    assert(0 * SCALE == 0);
    if b@ != 0 {
        assert(0int / magnitude(b@) == 0) by (nonlinear_arith)
            requires
                magnitude(b@) > 0,
        ;
    }
}

/// A positive scalar divided by itself is one.
pub proof fn lemma_div_self(a: Scalar)
    requires
        a@ > 0,
    ensures
        a.div_spec(a) == one(),
{
    assert(a@ * SCALE == SCALE * a@) by (nonlinear_arith);
    lemma_quotient_exact(SCALE as int, a@);
}

/// Multiplying by a factor between minus one and one does not increase
/// the magnitude.
pub proof fn lemma_mul_shrinks(a: Scalar, factor: Scalar)
    requires
        magnitude(factor@) <= SCALE,
    ensures
        magnitude(a.mul_spec(factor)@) <= magnitude(a@),
        a@ >= 0 && factor@ >= 0 ==> a.mul_spec(factor)@ >= 0,
{
    reveal(quotient);
    lemma_quotient_bound(a@, factor@, SCALE as int);
    lemma_product_sign(a@, factor@);
}

/// A vector scaled by zero, and the zero vector scaled by anything, is
/// the zero vector.
pub proof fn lemma_scale_zero(v: Vec2, factor: Scalar)
    ensures
        v.scale_spec(zero()) == origin(),
        origin().scale_spec(factor) == origin(),
{
    lemma_mul_zero(v.x);
    lemma_mul_zero(v.y);
    lemma_mul_zero(factor);
}

/// Adding or subtracting the zero vector changes nothing.
pub proof fn lemma_add_origin(v: Vec2)
    ensures
        v.add_spec(origin()) == v,
        origin().add_spec(v) == v,
        v.sub_spec(origin()) == v,
{
}

/// Scaling by a factor between minus one and one does not lengthen a
/// vector.
pub proof fn lemma_scale_shrinks(v: Vec2, factor: Scalar)
    requires
        magnitude(factor@) <= SCALE,
    ensures
        v.scale_spec(factor).norm_sq() <= v.norm_sq(),
{
    lemma_mul_shrinks(v.x, factor);
    lemma_mul_shrinks(v.y, factor);
    let x = v.x@;
    let y = v.y@;
    let sx = v.x.mul_spec(factor)@;
    let sy = v.y.mul_spec(factor)@;
    assert(sx * sx <= x * x) by (nonlinear_arith)
        requires
            magnitude(sx) <= magnitude(x),
    ;
    assert(sy * sy <= y * y) by (nonlinear_arith)
        requires
            magnitude(sy) <= magnitude(y),
    ;
}

} // verus!
