//! Two-dimensional vectors of fixed-point scalars.
use vstd::prelude::*;
use crate::scalar::{floor_sqrt, integer_sqrt, Scalar, LIMIT};

verus! {

/// A point or direction in the plane.
#[derive(Clone, Copy, Debug, PartialEq, Eq, Structural)]
pub struct Vec2 {
    pub x: Scalar,
    pub y: Scalar,
}

impl Vec2 {
    pub open spec fn add_spec(self, rhs: Vec2) -> Vec2 {
        Vec2 { x: self.x.add_spec(rhs.x), y: self.y.add_spec(rhs.y) }
    }

    pub open spec fn sub_spec(self, rhs: Vec2) -> Vec2 {
        Vec2 { x: self.x.sub_spec(rhs.x), y: self.y.sub_spec(rhs.y) }
    }

    pub open spec fn neg_spec(self) -> Vec2 {
        Vec2 { x: self.x.neg_spec(), y: self.y.neg_spec() }
    }

    /// Each component multiplied by `factor`.
    pub open spec fn scale_spec(self, factor: Scalar) -> Vec2 {
        Vec2 { x: self.x.mul_spec(factor), y: self.y.mul_spec(factor) }
    }

    /// Inner product.
    pub open spec fn dot_spec(self, rhs: Vec2) -> Scalar {
        self.x.mul_spec(rhs.x).add_spec(self.y.mul_spec(rhs.y))
    }

    /// The vector turned a quarter turn counter-clockwise.
    pub open spec fn perp_spec(self) -> Vec2 {
        Vec2 { x: self.y.neg_spec(), y: self.x }
    }

    /// Squared length, exact, in squared raw units.
    pub open spec fn norm_sq(self) -> int {
        self.x@ * self.x@ + self.y@ * self.y@
    }

    /// Length, rounded down; infinite where it is too large to hold.
    pub open spec fn length_spec(self) -> Scalar {
        Scalar::of(floor_sqrt(self.norm_sq()))
    }

    /// Each component divided by `divisor`.
    pub open spec fn divide_spec(self, divisor: Scalar) -> Vec2 {
        Vec2 { x: self.x.div_spec(divisor), y: self.y.div_spec(divisor) }
    }

    pub open spec fn is_zero(self) -> bool {
        self.x@ == 0 && self.y@ == 0
    }

    pub fn new(x: Scalar, y: Scalar) -> (v: Vec2)
        ensures
            v == (Vec2 { x, y }),
    {
        Vec2 { x, y }
    }

    pub fn zero() -> (v: Vec2)
        ensures
            v.is_zero(),
    {
        Vec2 { x: Scalar::zero(), y: Scalar::zero() }
    }

    pub fn add(self, rhs: Vec2) -> (v: Vec2)
        ensures
            v == self.add_spec(rhs),
    {
        Vec2 { x: self.x.add(rhs.x), y: self.y.add(rhs.y) }
    }

    pub fn sub(self, rhs: Vec2) -> (v: Vec2)
        ensures
            v == self.sub_spec(rhs),
    {
        Vec2 { x: self.x.sub(rhs.x), y: self.y.sub(rhs.y) }
    }

    pub fn neg(self) -> (v: Vec2)
        ensures
            v == self.neg_spec(),
    {
        Vec2 { x: self.x.neg(), y: self.y.neg() }
    }

    pub fn scale(self, factor: Scalar) -> (v: Vec2)
        ensures
            v == self.scale_spec(factor),
    {
        Vec2 { x: self.x.mul(factor), y: self.y.mul(factor) }
    }

    pub fn dot(self, rhs: Vec2) -> (d: Scalar)
        ensures
            d == self.dot_spec(rhs),
    {
        self.x.mul(rhs.x).add(self.y.mul(rhs.y))
    }

    pub fn perp(self) -> (v: Vec2)
        ensures
            v == self.perp_spec(),
    {
        Vec2 { x: self.y.neg(), y: self.x }
    }

    pub fn divide(self, divisor: Scalar) -> (v: Vec2)
        ensures
            v == self.divide_spec(divisor),
    {
        Vec2 { x: self.x.div(divisor), y: self.y.div(divisor) }
    }

    /// Squared length in squared raw units; no rounding takes place.
    pub fn norm_squared(self) -> (n: u128)
        ensures
            n == self.norm_sq(),
    {
        self.x.squared() + self.y.squared()
    }

    pub fn length(self) -> (r: Scalar)
        ensures
            r == self.length_spec(),
    {
        let root: u128 = integer_sqrt(self.norm_squared());
        if root > LIMIT as u128 {
            Scalar::infinity()
        } else {
            Scalar::from_raw(root as i64)
        }
    }
}

} // verus!
